//! SHA-256 digests, computed by the `sha2` crate, and their lowercase hex form.
use crate::vm::{hex2, push_hex2};
use sha2::Digest;
use vstd::prelude::*;

verus! {

/// The SHA-256 digest of `bytes`.
pub uninterp spec fn sha256_of(bytes: Seq<u8>) -> Seq<u8>;

/// `sha2::Sha256::digest`: the digest of `bytes`, which the crate's output
/// size fixes at 32 bytes. What the bytes are is only named here.
#[verifier::external_body]
pub(crate) fn sha256(bytes: &[u8]) -> (r: Vec<u8>)
    ensures
        r@ == sha256_of(bytes@),
        r@.len() == 32,
{
    sha2::Sha256::digest(bytes).to_vec()
}

/// Two lowercase hex digits per byte, in order.
pub open spec fn hex_bytes(b: Seq<u8>) -> Seq<char>
    decreases b.len(),
{
    if b.len() == 0 {
        Seq::empty()
    } else {
        hex_bytes(b.drop_last()) + hex2(b.last())
    }
}

/// The bytes in lowercase hex, as `{:x}` writes a digest.
pub fn hex_lower(bytes: &[u8]) -> (r: String)
    ensures
        r@ == hex_bytes(bytes@),
{
    let mut r = String::new();
    let mut i: usize = 0;
    assert(bytes@.subrange(0, 0) =~= Seq::<u8>::empty());
    while i < bytes.len()
        invariant
            i <= bytes@.len(),
            r@ == hex_bytes(bytes@.subrange(0, i as int)),
        decreases bytes.len() - i,
    {
        let ghost pre = bytes@.subrange(0, i + 1);
        assert(pre.drop_last() =~= bytes@.subrange(0, i as int));
        push_hex2(&mut r, bytes[i]);
        i = i + 1;
    }
    assert(bytes@.subrange(0, bytes@.len() as int) =~= bytes@);
    r
}

/// The SHA-256 digest of `bytes` in lowercase hex.
pub fn sha256_hex(bytes: &[u8]) -> (r: String)
    ensures
        r@ == hex_bytes(sha256_of(bytes@)),
{
    let digest = sha256(bytes);
    hex_lower(digest.as_slice())
}

} // verus!
