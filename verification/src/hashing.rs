//! The deduplication identifier: a fixed, non-cryptographic 64-bit hash of
//! the matching key, folded FNV-1a-style over the key's characters.
//!
//! Membership of this hash in the set of already-seen hashes is what decides
//! duplicates. The hash is deterministic in the key alone, so two lines with
//! the same normalized form always map to the same identifier; distinct keys
//! may in principle collide, a deliberate memory/exactness tradeoff of the
//! hashed strategy.

use vstd::prelude::*;
use vstd::string::StrSliceExecFns;

verus! {

/// The FNV-1a 64-bit offset basis.
pub const HASH_OFFSET_BASIS: u64 = 0xcbf2_9ce4_8422_2325;

/// The FNV-1a 64-bit prime.
pub const HASH_PRIME: u64 = 0x0000_0100_0000_01b3;

/// One fold step: mix one character into the running hash.
pub open spec fn hash_step(h: u64, c: char) -> u64 {
    vstd::wrapping::u64_specs::wrapping_mul(h ^ (c as u64), HASH_PRIME)
}

/// The deduplication hash of a matching key.
pub open spec fn key_hash(s: Seq<char>) -> u64
    decreases s.len(),
{
    if s.len() == 0 {
        HASH_OFFSET_BASIS
    } else {
        hash_step(key_hash(s.drop_last()), s.last())
    }
}

/// Computes the deduplication hash of a matching key.
pub fn hash_key(s: &str) -> (h: u64)
    ensures
        h == key_hash(s@),
{
    let n = s.unicode_len();
    let mut h: u64 = HASH_OFFSET_BASIS;
    let mut i: usize = 0;
    #[verifier::loop_isolation(false)]
    while i < n
        invariant
            i <= n,
            h == key_hash(s@.take(i as int)),
        decreases n - i,
    {
        let c = s.get_char(i);
        h = (h ^ (c as u64)).wrapping_mul(HASH_PRIME);
        proof {
            assert(s@.take(i + 1).drop_last() =~= s@.take(i as int));
            assert(s@.take(i + 1).last() == s@[i as int]);
        }
        i += 1;
    }
    proof {
        assert(s@.take(n as int) =~= s@);
    }
    h
}

} // verus!
