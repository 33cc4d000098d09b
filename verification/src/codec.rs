//! Little-endian length prefixes.

use vstd::prelude::*;

verus! {

/// The number that a byte sequence spells, least significant byte first.
pub open spec fn le_value(bytes: Seq<u8>) -> nat
    decreases bytes.len(),
{
    if bytes.len() == 0 {
        0
    } else {
        bytes[0] as nat + 256 * le_value(bytes.drop_first())
    }
}

/// The `count` low bytes of `n`, least significant first.
pub open spec fn le_digits(n: nat, count: nat) -> Seq<u8>
    decreases count,
{
    if count == 0 {
        Seq::empty()
    } else {
        seq![(n % 256) as u8] + le_digits(n / 256, (count - 1) as nat)
    }
}

/// 256 to the power `count`.
pub open spec fn radix_pow(count: nat) -> nat
    decreases count,
{
    if count == 0 {
        1
    } else {
        256 * radix_pow((count - 1) as nat)
    }
}

/// `le_digits` yields `count` bytes.
pub proof fn lemma_le_digits_len(n: nat, count: nat)
    ensures
        le_digits(n, count).len() == count,
    decreases count,
{
    if count > 0 {
        lemma_le_digits_len(n / 256, (count - 1) as nat);
    }
}

/// Decoding undoes encoding for every number that fits in `count` bytes.
pub proof fn lemma_le_roundtrip(n: nat, count: nat)
    requires
        n < radix_pow(count),
    ensures
        le_value(le_digits(n, count)) == n,
    decreases count,
{
    if count > 0 {
        let rest = le_digits(n / 256, (count - 1) as nat);
        let all = le_digits(n, count);
        assert(n / 256 < radix_pow((count - 1) as nat)) by (nonlinear_arith)
            requires
                n < 256 * radix_pow((count - 1) as nat),
        ;
        lemma_le_roundtrip(n / 256, (count - 1) as nat);
        assert(all.drop_first() =~= rest);
        assert(all[0] == (n % 256) as u8);
    }
}

/// Every `u64` fits in eight bytes.
pub proof fn lemma_u64_fits(x: u64)
    ensures
        (x as nat) < radix_pow(8),
{
    reveal_with_fuel(radix_pow, 9);
}

/// A byte sequence spells a number below 256 to the power of its length.
pub proof fn lemma_le_value_bound(bytes: Seq<u8>)
    ensures
        le_value(bytes) < radix_pow(bytes.len()),
    decreases bytes.len(),
{
    if bytes.len() > 0 {
        lemma_le_value_bound(bytes.drop_first());
        let rest = le_value(bytes.drop_first());
        let p = radix_pow((bytes.len() - 1) as nat);
        assert(bytes[0] as nat + 256 * rest < 256 * p) by (nonlinear_arith)
            requires
                rest < p,
                (bytes[0] as nat) < 256,
        ;
    }
}

/// Writes `x` as eight bytes, least significant first.
pub fn u64_to_le(x: u64) -> (r: Vec<u8>)
    ensures
        r@ == le_digits(x as nat, 8),
        r@.len() == 8,
        le_value(r@) == x,
{
    let mut out: Vec<u8> = Vec::new();
    let mut rest: u64 = x;
    let mut i: usize = 0;
    while i < 8
        invariant
            i <= 8,
            out@.len() == i,
            le_digits(x as nat, 8) =~= out@ + le_digits(rest as nat, (8 - i) as nat),
        decreases 8 - i,
    {
        let ghost before = out@;
        out.push((rest % 256) as u8);
        proof {
            let tail = le_digits((rest / 256) as nat, (8 - i - 1) as nat);
            assert(le_digits(rest as nat, (8 - i) as nat) =~= seq![(rest % 256) as u8] + tail);
            assert(out@ + tail =~= before + (seq![(rest % 256) as u8] + tail));
        }
        rest = rest / 256;
        i = i + 1;
    }
    proof {
        assert(le_digits(rest as nat, 0) =~= Seq::<u8>::empty());
        assert(out@ =~= le_digits(x as nat, 8));
        lemma_u64_fits(x);
        lemma_le_roundtrip(x as nat, 8);
    }
    out
}

/// Reads the first eight bytes of `bytes` as a number, least significant
/// byte first.
pub fn u64_from_le(bytes: &[u8]) -> (r: u64)
    requires
        bytes@.len() >= 8,
    ensures
        r == le_value(bytes@.subrange(0, 8)),
{
    let ghost word = bytes@.subrange(0, 8);
    let mut acc: u64 = 0;
    let mut i: usize = 8;
    proof {
        assert(word.subrange(8, 8) =~= Seq::<u8>::empty());
    }
    while i > 0
        invariant
            i <= 8,
            bytes@.len() >= 8,
            word == bytes@.subrange(0, 8),
            acc == le_value(word.subrange(i as int, 8)),
        decreases i,
    {
        i = i - 1;
        proof {
            let cur = word.subrange(i as int, 8);
            assert(cur.drop_first() =~= word.subrange(i + 1, 8));
            assert(cur[0] == bytes@[i as int]);
            lemma_le_value_bound(cur);
            reveal_with_fuel(radix_pow, 9);
            assert(radix_pow(cur.len()) <= radix_pow(8)) by {
                reveal_with_fuel(radix_pow, 9);
            }
        }
        acc = acc * 256 + bytes[i] as u64;
    }
    proof {
        assert(word.subrange(0, 8) =~= word);
    }
    acc
}

} // verus!
