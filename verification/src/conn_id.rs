//! Connection IDs that the server chooses for its clients.
//!
//! The server derives the ID it gives a client from the client's first
//! destination ID, with an HMAC-SHA256 under a secret seed chosen at start-up,
//! so that a client that repeats its first packet lands on the same ID.
use vstd::prelude::*;

use crate::random::{random_bytes, RandomError};

verus! {

/// The longest connection ID that QUIC allows, and the length of every ID
/// that the server derives.
pub const MAX_CONN_ID_LEN: usize = 20;

/// Length of an HMAC-SHA256 seed, as *ring* generates them: the digest length.
pub const CONN_ID_SEED_LEN: usize = 32;

/// The HMAC-SHA256 tag of `data` under `key`, as *ring* computes it.
pub uninterp spec fn spec_hmac_sha256(key: Seq<u8>, data: Seq<u8>) -> Seq<u8>;

/// `ring::hmac::sign` with an HMAC-SHA256 key made by `ring::hmac::Key::new`
/// from `key`. The contract claims that the tag is the named function of the
/// key and the data, and that it is 32 bytes long (the SHA-256 output length).
#[verifier::external_body]
fn hmac_sha256(key: &[u8], data: &[u8]) -> (tag: Vec<u8>)
    ensures
        tag@ == spec_hmac_sha256(key@, data@),
        tag@.len() == 32,
{
    ring::hmac::sign(&ring::hmac::Key::new(ring::hmac::HMAC_SHA256, key), data).as_ref().to_vec()
}

/// The connection ID derived from a client's destination ID `dcid`.
pub open spec fn spec_derive_conn_id(seed: Seq<u8>, dcid: Seq<u8>) -> Seq<u8> {
    spec_hmac_sha256(seed, dcid).take(MAX_CONN_ID_LEN as int)
}

/// Derives the connection ID for a client whose packet is addressed to
/// `dcid`: the first `MAX_CONN_ID_LEN` bytes of its HMAC-SHA256 under `seed`.
pub fn derive_conn_id(seed: &[u8], dcid: &[u8]) -> (id: Vec<u8>)
    ensures
        id@ == spec_derive_conn_id(seed@, dcid@),
        id@.len() == MAX_CONN_ID_LEN,
        id@ == spec_hmac_sha256(seed@, dcid@).take(20),
{
    let tag = hmac_sha256(seed, dcid);
    let mut id: Vec<u8> = Vec::new();
    let mut i: usize = 0;
    while i < MAX_CONN_ID_LEN
        invariant
            i <= MAX_CONN_ID_LEN,
            tag@.len() == 32,
            id@ == tag@.take(i as int),
        decreases MAX_CONN_ID_LEN - i,
    {
        id.push(tag[i]);
        i = i + 1;
        assert(id@ =~= tag@.take(i as int));
    }
    id
}

/// A derived ID is the first 20 bytes of the HMAC-SHA256 tag of the whole
/// destination ID under the seed, byte for byte: two destination IDs get the
/// same connection ID exactly when their tags agree on those bytes.
pub proof fn lemma_derived_id_is_tag_prefix(seed: Seq<u8>, dcid: Seq<u8>, other: Seq<u8>)
    requires
        spec_hmac_sha256(seed, dcid).len() == 32,
        spec_hmac_sha256(seed, other).len() == 32,
    ensures
        spec_derive_conn_id(seed, dcid).len() == 20,
        forall|i: int|
            0 <= i < 20 ==> spec_derive_conn_id(seed, dcid)[i] == spec_hmac_sha256(seed, dcid)[i],
        (spec_derive_conn_id(seed, dcid) == spec_derive_conn_id(seed, other)) <==> (forall|i: int|
            0 <= i < 20 ==> spec_hmac_sha256(seed, dcid)[i] == spec_hmac_sha256(seed, other)[i]),
{
    let a = spec_derive_conn_id(seed, dcid);
    let b = spec_derive_conn_id(seed, other);
    if forall|i: int| 0 <= i < 20 ==> spec_hmac_sha256(seed, dcid)[i] == spec_hmac_sha256(seed, other)[i] {
        assert(a =~= b);
    }
    if a == b {
        assert forall|i: int| 0 <= i < 20 implies spec_hmac_sha256(seed, dcid)[i] == spec_hmac_sha256(seed, other)[i] by {
            assert(a[i] == b[i]);
        }
    }
}

/// A fresh secret seed for connection-ID derivation: `CONN_ID_SEED_LEN`
/// random bytes, as `ring::hmac::Key::generate` draws them for HMAC-SHA256.
pub fn generate_conn_id_seed() -> (res: Result<Vec<u8>, RandomError>)
    ensures
        res matches Ok(seed) ==> seed@.len() == CONN_ID_SEED_LEN,
{
    random_bytes(CONN_ID_SEED_LEN)
}

} // verus!
