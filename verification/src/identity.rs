//! The numeric identity of a domain.
//!
//! Every lookup key in the relay (the agent registry, the cluster-wide alias
//! directory) is the 64-bit FNV-1a hash of the domain's UTF-8 bytes. The hash is
//! fixed by this module alone, so two nodes always agree on a domain's identity.

use vstd::prelude::*;

verus! {

/// Offset basis of 64-bit FNV-1a.
pub const FNV_OFFSET_BASIS: u64 = 0xcbf2_9ce4_8422_2325;

/// Prime of 64-bit FNV-1a.
pub const FNV_PRIME: u64 = 0x0000_0100_0000_01b3;

/// One round of FNV-1a: fold `byte` into the running hash `hash`.
pub open spec fn fnv1a_round(hash: u64, byte: u8) -> u64 {
    (hash ^ (byte as u64)).wrapping_mul(FNV_PRIME)
}

/// The FNV-1a hash of a byte sequence, read from its first byte to its last.
pub open spec fn fnv1a(bytes: Seq<u8>) -> u64
    decreases bytes.len(),
{
    if bytes.len() == 0 {
        FNV_OFFSET_BASIS
    } else {
        fnv1a_round(fnv1a(bytes.drop_last()), bytes.last())
    }
}

/// The identity of the domain whose characters are `domain`.
pub open spec fn spec_home_id(domain: Seq<char>) -> u64 {
    fnv1a(vstd::utf8::encode_utf8(domain))
}

/// Hashes `bytes` with 64-bit FNV-1a.
pub fn fnv1a_hash(bytes: &[u8]) -> (hash: u64)
    ensures
        hash == fnv1a(bytes@),
{
    let mut hash: u64 = FNV_OFFSET_BASIS;
    let mut i: usize = 0;
    while i < bytes.len()
        invariant
            i <= bytes@.len(),
            hash == fnv1a(bytes@.take(i as int)),
        decreases bytes@.len() - i,
    {
        proof {
            let next = bytes@.take(i + 1);
            assert(next.drop_last() =~= bytes@.take(i as int));
            assert(next.last() == bytes@[i as int]);
        }
        hash = (hash ^ (bytes[i] as u64)).wrapping_mul(FNV_PRIME);
        i = i + 1;
    }
    proof {
        assert(bytes@.take(i as int) =~= bytes@);
    }
    hash
}

/// Computes the identity of `domain`.
///
/// The function is total and depends on nothing but the characters of the
/// domain: the same domain has the same identity on every call and on every
/// node.
pub fn home_id_from_domain(domain: &str) -> (id: u64)
    ensures
        id == spec_home_id(domain@),
{
    fnv1a_hash(domain.as_bytes())
}

} // verus!
