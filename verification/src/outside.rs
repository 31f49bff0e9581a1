//! The types of other crates that values of this library pass through, and
//! the names of what their functions return.

use vstd::prelude::*;

verus! {

#[verifier::external_type_specification]
#[verifier::external_body]
pub struct ExUuidError(uuid::Error);

#[verifier::external_type_specification]
#[verifier::external_body]
pub struct ExCodecError(parity_scale_codec::Error);

/// The sixteen bytes that `uuid::Uuid::try_parse_ascii` reads from a text, or
/// `None` where it rejects the text.
pub uninterp spec fn uuid_bytes_of(text: Seq<u8>) -> Option<Seq<u8>>;

/// The 32-byte digest that `hash_of` of `sp_runtime::traits::BlakeTwo256` gives
/// for the bytes `data`.
pub uninterp spec fn blake2_256_of(data: Seq<u8>) -> Seq<u8>;

} // verus!
