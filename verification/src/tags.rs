//! Byte-level helpers for tag frames.

use vstd::prelude::*;

verus! {

/// The value of `bytes` read as one big-endian integer.
pub open spec fn be_value(bytes: Seq<u8>) -> int
    decreases bytes.len(),
{
    if bytes.len() == 0 {
        0
    } else {
        be_value(bytes.drop_last()) * 256 + bytes.last()
    }
}

/// 256 to the power `k`.
pub open spec fn pow256(k: int) -> int
    recommends
        k >= 0,
    decreases k,
{
    if k <= 0 {
        1
    } else {
        pow256(k - 1) * 256
    }
}

/// A big-endian value fits below 256 to the number of its bytes.
pub proof fn lemma_be_value_bound(bytes: Seq<u8>)
    ensures
        0 <= be_value(bytes) < pow256(bytes.len() as int),
    decreases bytes.len(),
{
    if bytes.len() > 0 {
        lemma_be_value_bound(bytes.drop_last());
        assert(be_value(bytes.drop_last()) * 256 + bytes.last() < pow256(
            bytes.len() as int,
        )) by (nonlinear_arith)
            requires
                be_value(bytes.drop_last()) <= pow256(bytes.len() - 1) - 1,
                0 <= bytes.last() < 256,
                pow256(bytes.len() as int) == pow256(bytes.len() - 1) * 256,
                pow256(bytes.len() - 1) >= 1,
        ;
        assert(pow256(bytes.len() - 1) >= 1) by {
            lemma_pow256_pos(bytes.len() - 1);
        }
    }
}

proof fn lemma_pow256_pos(k: int)
    ensures
        pow256(k) >= 1,
    decreases (if k >= 0 {
        k
    } else {
        0
    }),
{
    if k > 0 {
        lemma_pow256_pos(k - 1);
    }
}

/// The tail of `bytes` that a variable-length big-endian read keeps:
/// everything when it is at most eight bytes, else the last eight.
pub open spec fn be_u64_window(bytes: Seq<u8>) -> Seq<u8> {
    if bytes.len() > 8 {
        bytes.subrange(bytes.len() - 8, bytes.len() as int)
    } else {
        bytes
    }
}

/// Parse a variable-length big-endian integer into a `u64`: empty input
/// is nothing; longer than eight bytes keeps the least-significant
/// eight.
pub fn parse_be_u64(bytes: &[u8]) -> (r: Option<u64>)
    ensures
        bytes@.len() == 0 ==> r is None,
        bytes@.len() > 0 ==> r == Option::Some(be_value(be_u64_window(bytes@)) as u64),
{
    if bytes.len() == 0 {
        return Option::None;
    }
    let start: usize = if bytes.len() > 8 {
        bytes.len() - 8
    } else {
        0
    };
    let ghost window = be_u64_window(bytes@);
    assert(window =~= bytes@.subrange(start as int, bytes@.len() as int));
    let mut v: u64 = 0;
    let mut i: usize = start;
    while i < bytes.len()
        invariant
            start <= i <= bytes@.len(),
            i - start <= 8,
            bytes@.len() - start <= 8,
            window =~= bytes@.subrange(start as int, bytes@.len() as int),
            v == be_value(bytes@.subrange(start as int, i as int)),
            v < pow256(i - start),
        decreases bytes@.len() - i,
    {
        let b = bytes[i];
        proof {
            lemma_pow256_pos(i - start);
            lemma_pow256_monotone(i - start, 7);
            reveal_with_fuel(pow256, 9);
            assert(pow256(7) == 0x100000000000000);
            assert(v < 0x100000000000000);
            assert(pow256(i + 1 - start) == pow256(i - start) * 256);
            assert(v * 256 + b < pow256(i + 1 - start)) by (nonlinear_arith)
                requires
                    v <= pow256(i - start) - 1,
                    0 <= b < 256,
                    pow256(i + 1 - start) == pow256(i - start) * 256,
                    pow256(i - start) >= 1,
            ;
            assert(bytes@.subrange(start as int, i + 1).drop_last() =~= bytes@.subrange(
                start as int,
                i as int,
            ));
        }
        v = v * 256 + (b as u64);
        i = i + 1;
    }
    assert(bytes@.subrange(start as int, i as int) =~= window);
    proof {
        lemma_be_value_bound(window);
    }
    Option::Some(v)
}

proof fn lemma_pow256_monotone(a: int, b: int)
    requires
        0 <= a <= b,
    ensures
        pow256(a) <= pow256(b),
    decreases b,
{
    if a < b {
        lemma_pow256_monotone(a, b - 1);
        lemma_pow256_pos(b - 1);
        assert(pow256(b) == pow256(b - 1) * 256);
    }
}

} // verus!
