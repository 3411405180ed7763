use vstd::prelude::*;
use vstd::arithmetic::power::{pow, lemma_pow0, lemma_pow1, lemma_pow_positive, lemma_pow_adds, lemma_pow_increases};

verus! {

/// A 32-byte account address, held as two 128-bit halves so that equality
/// and map lookups stay plain integer comparisons.
#[derive(Clone, Copy, PartialEq, Eq, Structural, Debug)]
pub struct AccountId {
    pub hi: u128,
    pub lo: u128,
}

impl View for AccountId {
    type V = AccountId;

    open spec fn view(&self) -> AccountId {
        *self
    }
}

/// The big-endian value of a byte sequence.
pub open spec fn be_bytes_value(s: Seq<u8>) -> int
    decreases s.len(),
{
    if s.len() == 0 {
        0
    } else {
        be_bytes_value(s.drop_last()) * 256 + s.last()
    }
}

pub proof fn lemma_be_bytes_value_bound(s: Seq<u8>)
    ensures
        0 <= be_bytes_value(s) < pow(256, s.len() as nat),
    decreases s.len(),
{
    lemma_pow_positive(256, s.len() as nat);
    if s.len() > 0 {
        lemma_be_bytes_value_bound(s.drop_last());
        lemma_pow1(256);
        lemma_pow_adds(256, (s.len() - 1) as nat, 1);
    }
}

proof fn lemma_pow256_16()
    ensures
        pow(256, 16) == 0x100000000000000000000000000000000,
{
    assert(pow(256, 8) == 0x10000000000000000) by {
        reveal_with_fuel(pow, 9);
    }
    lemma_pow_adds(256, 8, 8);
}

/// The big-endian value of the 16 bytes of `bytes` that start at `start`.
fn be_half(bytes: &[u8; 32], start: usize) -> (r: u128)
    requires
        start + 16 <= 32,
    ensures
        r == be_bytes_value(bytes@.subrange(start as int, start + 16)),
{
    let mut acc: u128 = 0;
    let mut i: usize = 0;
    proof {
        lemma_pow0(256);
    }
    while i < 16
        invariant
            start + 16 <= 32,
            0 <= i <= 16,
            acc == be_bytes_value(bytes@.subrange(start as int, start + i)),
            acc < pow(256, i as nat),
        decreases 16 - i,
    {
        proof {
            lemma_pow1(256);
            lemma_pow_adds(256, i as nat, 1);
            lemma_pow_positive(256, i as nat);
            lemma_pow256_16();
            lemma_pow_increases(256, (i + 1) as nat, 16);
            assert(bytes@.subrange(start as int, start + i + 1).drop_last() =~= bytes@.subrange(
                start as int,
                start + i,
            ));
            assert(bytes@.subrange(start as int, start + i + 1).last() == bytes@[start + i]);
        }
        acc = acc * 256 + (bytes[start + i] as u128);
        i = i + 1;
    }
    acc
}

impl AccountId {
    /// Builds an address from its 32 raw bytes, big-endian.
    pub fn from_bytes(bytes: [u8; 32]) -> (r: AccountId)
        ensures
            r.hi == be_bytes_value(bytes@.take(16)),
            r.lo == be_bytes_value(bytes@.skip(16)),
    {
        let hi = be_half(&bytes, 0);
        let lo = be_half(&bytes, 16);
        proof {
            assert(bytes@.subrange(0, 16) =~= bytes@.take(16));
            assert(bytes@.subrange(16, 32) =~= bytes@.skip(16));
        }
        AccountId { hi, lo }
    }
}

} // verus!
