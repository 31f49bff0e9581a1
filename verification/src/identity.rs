//! From an external identifier to the identity that stands for it.

use vstd::prelude::*;
use crate::outside::{blake2_256_of, uuid_bytes_of};
use crate::types::{Identity, TracingError};

verus! {

/// Calls `uuid::Uuid::try_parse_ascii` on `text` and hands out the bytes of the
/// UUID it returns. The parser accepts the simple, hyphenated, braced and URN
/// forms; which texts those are is not restated here: the result is named by
/// `uuid_bytes_of`.
#[verifier::external_body]
fn parse_uuid(text: &[u8]) -> (r: Result<[u8; 16], uuid::Error>)
    ensures
        r is Ok <==> uuid_bytes_of(text@) is Some,
        r is Ok ==> uuid_bytes_of(text@) == Some(r->Ok_0@),
{
    match uuid::Uuid::try_parse_ascii(text) {
        Ok(id) => Ok(*id.as_bytes()),
        Err(e) => Err(e),
    }
}

/// Calls `hash_of` of `sp_runtime::traits::BlakeTwo256` on the sixteen bytes
/// of a UUID: the Blake2b digest of 256 bits over the bytes as they stand. The
/// digest is named by `blake2_256_of`.
#[verifier::external_body]
fn hash_of(raw: &[u8; 16]) -> (r: [u8; 32])
    ensures
        r@ == blake2_256_of(raw@),
{
    <sp_runtime::traits::BlakeTwo256 as sp_runtime::traits::Hash>::hash_of(raw).0
}

/// The identity whose bytes are `digest`.
pub open spec fn identity_with(digest: Seq<u8>) -> Identity {
    choose|id: Identity| id@ == digest
}

/// The identity of an external identifier: the digest of the UUID that its text
/// spells, where it spells one.
pub open spec fn identity_of(external: Seq<u8>) -> Option<Identity> {
    match uuid_bytes_of(external) {
        Some(raw) => Some(identity_with(blake2_256_of(raw))),
        None => None,
    }
}

/// Wraps a digest as an identity.
pub fn identity_from_digest(digest: [u8; 32]) -> (id: Identity)
    ensures
        id.bytes == digest,
        id == identity_with(digest@),
{
    let id = Identity { bytes: digest };
    proof {
        assert(id@ == digest@);
        Identity::lemma_view_injective(id, identity_with(digest@));
    }
    id
}

/// Derives the identity of an external identifier. Fails with
/// `MalformedIdentity` exactly when the text is not that of a UUID.
pub fn derive_identity(external: &Vec<u8>) -> (r: Result<Identity, TracingError>)
    ensures
        match identity_of(external@) {
            Some(id) => r == Ok::<Identity, TracingError>(id),
            None => r == Err::<Identity, TracingError>(TracingError::MalformedIdentity),
        },
{
    match parse_uuid(external.as_slice()) {
        Ok(raw) => {
            let digest: [u8; 32] = hash_of(&raw);
            Ok(identity_from_digest(digest))
        },
        Err(_) => Err(TracingError::MalformedIdentity),
    }
}

} // verus!
