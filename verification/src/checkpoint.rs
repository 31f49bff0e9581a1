//! The persisted checkpoint: the highest epoch whose queued requests have been
//! applied, kept as the bytes of its SCALE encoding.

use vstd::prelude::*;
use vstd::bytes::{lemma_auto_spec_u32_to_from_le_bytes, spec_u32_from_le_bytes, spec_u32_to_le_bytes};
use crate::types::{bytes_copy, EpochNumber};

verus! {

/// What a reading of the persisted checkpoint gives.
#[derive(Clone, Copy, Debug, PartialEq, Eq, Structural)]
pub enum CheckpointRead {
    /// Nothing has been persisted yet.
    Absent,
    /// The persisted epoch.
    Stored(EpochNumber),
    /// Something is persisted that is no epoch number.
    Corrupt,
}

/// The epoch that the bytes `raw` encode: the first four bytes, little end
/// first; nothing where there are fewer than four.
pub open spec fn decode_epoch(raw: Seq<u8>) -> Option<EpochNumber> {
    if raw.len() >= 4 {
        Some(spec_u32_from_le_bytes(raw.subrange(0, 4)))
    } else {
        None
    }
}

/// The four bytes that encode `epoch`, little end first.
pub open spec fn encode_epoch(epoch: EpochNumber) -> Seq<u8> {
    spec_u32_to_le_bytes(epoch)
}

/// What a reading of the persisted bytes `raw` gives.
pub open spec fn read_of(raw: Option<Seq<u8>>) -> CheckpointRead {
    match raw {
        None => CheckpointRead::Absent,
        Some(bytes) => match decode_epoch(bytes) {
            Some(epoch) => CheckpointRead::Stored(epoch),
            None => CheckpointRead::Corrupt,
        },
    }
}

/// The epoch after which replay resumes: the persisted one, or 0 where none
/// can be read.
pub open spec fn resume_after(read: CheckpointRead) -> int {
    match read {
        CheckpointRead::Stored(epoch) => epoch as int,
        _ => 0,
    }
}

/// Decoding what was encoded gives the epoch back.
pub proof fn lemma_decode_encode(epoch: EpochNumber)
    ensures
        decode_epoch(encode_epoch(epoch)) == Some(epoch),
        read_of(Some(encode_epoch(epoch))) == CheckpointRead::Stored(epoch),
{
    lemma_auto_spec_u32_to_from_le_bytes();
    let bytes = spec_u32_to_le_bytes(epoch);
    assert(bytes.len() == 4);
    assert(bytes.subrange(0, 4) =~= bytes);
}

/// Calls `decode` of `parity_scale_codec::Decode` for `u32` on the bytes. The
/// codec fills a buffer of four bytes from the front of the input and reads it
/// little end first; it fails where the input is shorter, and ignores what
/// follows the four bytes.
#[verifier::external_body]
fn scale_decode_u32(bytes: &[u8]) -> (r: Result<u32, parity_scale_codec::Error>)
    ensures
        r is Ok <==> bytes@.len() >= 4,
        r is Ok ==> r->Ok_0 == spec_u32_from_le_bytes(bytes@.subrange(0, 4)),
{
    let mut input: &[u8] = bytes;
    <u32 as parity_scale_codec::Decode>::decode(&mut input)
}

/// Calls `encode` of `parity_scale_codec::Encode` for `u32`: the four bytes of
/// the number, little end first.
#[verifier::external_body]
fn scale_encode_u32(value: u32) -> (r: Vec<u8>)
    ensures
        r@ == spec_u32_to_le_bytes(value),
{
    parity_scale_codec::Encode::encode(&value)
}

/// The persisted entry that holds the checkpoint.
pub struct Checkpoint {
    raw: Option<Vec<u8>>,
}

impl View for Checkpoint {
    type V = Option<Seq<u8>>;

    closed spec fn view(&self) -> Option<Seq<u8>> {
        match self.raw {
            Some(bytes) => Some(bytes@),
            None => None,
        }
    }
}

impl Checkpoint {
    /// What a reading of the entry gives.
    pub open spec fn spec_read(&self) -> CheckpointRead {
        read_of(self@)
    }

    /// An entry into which nothing has been persisted.
    pub fn new() -> (checkpoint: Checkpoint)
        ensures
            checkpoint@ == None::<Seq<u8>>,
    {
        Checkpoint { raw: None }
    }

    /// An entry that holds the bytes `raw`, as found after a restart.
    pub fn from_raw(raw: Vec<u8>) -> (checkpoint: Checkpoint)
        ensures
            checkpoint@ == Some(raw@),
    {
        Checkpoint { raw: Some(raw) }
    }

    /// The bytes that the entry holds.
    pub fn raw(&self) -> (r: Option<Vec<u8>>)
        ensures
            r is Some <==> self@ is Some,
            r is Some ==> self@ == Some(r->Some_0@),
    {
        match &self.raw {
            Some(bytes) => Some(bytes_copy(bytes)),
            None => None,
        }
    }

    /// Reads the entry.
    pub fn read(&self) -> (r: CheckpointRead)
        ensures
            r == self.spec_read(),
    {
        match &self.raw {
            None => CheckpointRead::Absent,
            Some(bytes) => match scale_decode_u32(bytes.as_slice()) {
                Ok(epoch) => CheckpointRead::Stored(epoch),
                Err(_) => CheckpointRead::Corrupt,
            },
        }
    }

    /// Persists `epoch` in place of what the entry held.
    pub fn commit(&mut self, epoch: EpochNumber)
        ensures
            final(self)@ == Some(encode_epoch(epoch)),
            final(self).spec_read() == CheckpointRead::Stored(epoch),
    {
        proof {
            lemma_decode_encode(epoch);
        }
        self.raw = Some(scale_encode_u32(epoch));
    }
}

} // verus!
