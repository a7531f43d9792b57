//! The packed-window model: the mathematical value of a window of 2-bit
//! symbols, the width mask, and the algebra tying the incremental update
//! operations to full recomputation of the window's value.

use crate::hash::valid_bases;
use vstd::arithmetic::div_mod::{
    lemma_fundamental_div_mod, lemma_fundamental_div_mod_converse, lemma_mod_multiples_vanish,
    lemma_small_mod,
};
use vstd::arithmetic::mul::{lemma_mul_is_associative, lemma_mul_is_commutative};
use vstd::arithmetic::power2::{
    lemma2_to64, lemma2_to64_rest, lemma_pow2_adds, lemma_pow2_pos, lemma_pow2_strictly_increases,
    pow2,
};
use vstd::bits::{
    lemma_u64_low_bits_mask_is_mod, lemma_u64_pow2_no_overflow, lemma_u64_shl_is_mul,
    lemma_u64_shr_is_div, low_bits_mask,
};
use vstd::prelude::*;

verus! {

/// The value of a window packed MSB-first at 2 bits per symbol: the first
/// symbol occupies the highest used bit pair, the last symbol the lowest.
pub open spec fn packed_value(w: Seq<u8>) -> nat
    decreases w.len(),
{
    if w.len() == 0 {
        0
    } else {
        packed_value(w.drop_last()) * 4 + w.last() as nat
    }
}

/// The mask selecting the low `2 * k` accumulator bits.
pub open spec fn spec_mask(k: nat) -> u64 {
    u64::MAX >> (((32 - k) * 2) as u64)
}

/// What the forward roll computes on the raw accumulator bits.
pub open spec fn spec_roll_forward(h: u64, k: nat, in_base: u8) -> u64 {
    ((h << 2u64) | (in_base as u64)) & spec_mask(k)
}

/// What the reverse roll computes on the raw accumulator bits.
pub open spec fn spec_roll_reverse(h: u64, k: nat, in_base: u8) -> u64 {
    (h >> 2u64) | ((in_base as u64) << ((((k - 1) * 2)) as u64))
}

/// What the forward removal computes on the raw accumulator bits.
pub open spec fn spec_remove_forward(h: u64, k: nat) -> u64 {
    h & spec_mask((k - 1) as nat)
}

/// What the reverse removal computes on the raw accumulator bits.
pub open spec fn spec_remove_reverse(h: u64) -> u64 {
    h >> 2u64
}

/// A valid window's packed value is below `4^len`.
pub proof fn lemma_packed_value_bound(w: Seq<u8>)
    requires
        valid_bases(w),
    ensures
        packed_value(w) < pow2(2 * w.len()),
    decreases w.len(),
{
    if w.len() == 0 {
        lemma2_to64();
    } else {
        let dl = w.drop_last();
        assert(valid_bases(dl)) by {
            assert(forall|i: int| 0 <= i < dl.len() ==> dl[i] == w[i]);
        }
        lemma_packed_value_bound(dl);
        lemma_pow2_adds(2 * dl.len(), 2);
        lemma2_to64();
        assert(w.last() < 4);
        assert(packed_value(dl) * 4 + 3 < pow2(2 * dl.len()) * 4);
    }
}

/// A valid window's packed value fits in the 64-bit accumulator.
pub proof fn lemma_packed_value_fits(w: Seq<u8>)
    requires
        valid_bases(w),
        w.len() <= 32,
    ensures
        packed_value(w) <= u64::MAX,
        packed_value(w) < pow2(64),
{
    lemma_packed_value_bound(w);
    if 2 * w.len() < 64 {
        lemma_pow2_strictly_increases(2 * w.len(), 64);
    }
    lemma2_to64_rest();
}

/// Appending one symbol shifts the packed value up one bit pair.
pub proof fn lemma_packed_value_push(w: Seq<u8>, b: u8)
    ensures
        packed_value(w.push(b)) == packed_value(w) * 4 + b,
{
    assert(w.push(b).drop_last() =~= w);
    assert(w.push(b).last() == b);
}

/// The packed value splits at the first symbol: the head contributes its
/// code at the top bit pair, the tail the rest.
pub proof fn lemma_packed_value_split_first(w: Seq<u8>)
    requires
        w.len() >= 1,
    ensures
        packed_value(w) == (w[0] as nat) * pow2((2 * (w.len() - 1)) as nat) + packed_value(w.drop_first()),
    decreases w.len(),
{
    if w.len() == 1 {
        lemma2_to64();
        assert(w.drop_last() =~= Seq::<u8>::empty());
        assert(w.drop_first() =~= Seq::<u8>::empty());
        assert(w.last() == w[0]);
        assert(packed_value(Seq::<u8>::empty()) == 0);
        assert(packed_value(w) == w[0] as nat);
        assert(pow2((2 * (w.len() - 1)) as nat) == 1);
        assert((w[0] as nat) * 1 == w[0] as nat) by (nonlinear_arith);
    } else {
        let dl = w.drop_last();
        let df = w.drop_first();
        lemma_packed_value_split_first(dl);
        assert(dl[0] == w[0]);
        assert(dl.drop_first() =~= df.drop_last());
        assert(df.last() == w.last());
        let p = pow2((2 * (dl.len() - 1)) as nat);
        lemma_pow2_adds((2 * (dl.len() - 1)) as nat, 2);
        lemma2_to64();
        assert((w[0] as nat) * p * 4 == (w[0] as nat) * (p * 4)) by {
            lemma_mul_is_associative(w[0] as int, p as int, 4);
        }
        assert(packed_value(w) == ((w[0] as nat) * p + packed_value(df.drop_last())) * 4
            + w.last() as nat);
        assert(((w[0] as nat) * p + packed_value(df.drop_last())) * 4 == (w[0] as nat) * p * 4
            + packed_value(df.drop_last()) * 4) by (nonlinear_arith);
        assert(packed_value(df) == packed_value(df.drop_last()) * 4 + df.last() as nat);
        assert((2 * (dl.len() - 1)) as nat + 2 == (2 * (w.len() - 1)) as nat);
        assert(p * 4 == pow2((2 * (w.len() - 1)) as nat));
    }
}

/// Dropping the first symbol is reduction modulo `4^(len - 1)`.
pub proof fn lemma_packed_value_drop_first(w: Seq<u8>)
    requires
        valid_bases(w),
        w.len() >= 1,
    ensures
        packed_value(w.drop_first()) == packed_value(w) % pow2((2 * (w.len() - 1)) as nat),
{
    let df = w.drop_first();
    let m = pow2((2 * (w.len() - 1)) as nat);
    lemma_packed_value_split_first(w);
    assert(valid_bases(df)) by {
        assert(forall|i: int| 0 <= i < df.len() ==> df[i] == w[i + 1]);
    }
    lemma_packed_value_bound(df);
    lemma_pow2_pos((2 * (w.len() - 1)) as nat);
    lemma_mul_is_commutative(w[0] as int, m as int);
    lemma_mod_multiples_vanish(w[0] as int, packed_value(df) as int, m as int);
    lemma_small_mod(packed_value(df), m);
}

/// Two valid windows of equal width with the same packed value hold the same
/// symbols: the packing is injective.
pub proof fn lemma_packed_value_injective(w1: Seq<u8>, w2: Seq<u8>)
    requires
        valid_bases(w1),
        valid_bases(w2),
        w1.len() == w2.len(),
        packed_value(w1) == packed_value(w2),
    ensures
        w1 == w2,
    decreases w1.len(),
{
    if w1.len() == 0 {
        assert(w1 =~= w2);
    } else {
        let d1 = w1.drop_last();
        let d2 = w2.drop_last();
        assert(w1.last() < 4);
        assert(w2.last() < 4);
        lemma_fundamental_div_mod_converse(
            packed_value(w1) as int,
            4,
            packed_value(d1) as int,
            w1.last() as int,
        );
        lemma_fundamental_div_mod_converse(
            packed_value(w2) as int,
            4,
            packed_value(d2) as int,
            w2.last() as int,
        );
        assert(w1.last() == w2.last());
        assert(packed_value(d1) == packed_value(d2));
        assert(valid_bases(d1)) by {
            assert(forall|i: int| 0 <= i < d1.len() ==> d1[i] == w1[i]);
        }
        assert(valid_bases(d2)) by {
            assert(forall|i: int| 0 <= i < d2.len() ==> d2[i] == w2[i]);
        }
        lemma_packed_value_injective(d1, d2);
        assert(w1 =~= w2) by {
            assert(forall|i: int| 0 <= i < w1.len() - 1 ==> w1[i] == d1[i] && w2[i] == d2[i]);
        }
    }
}

/// The width mask keeps exactly the low `2 * k` bits: and-ing with it is
/// reduction modulo `4^k`.
pub proof fn lemma_mask_is_mod(x: u64, k: nat)
    requires
        1 <= k <= 32,
    ensures
        (x & spec_mask(k)) == (x as nat) % pow2(2 * k),
{
    let s: u64 = ((32 - k) * 2) as u64;
    let t: u64 = (2 * k) as u64;
    if k <= 31 {
        assert(u64::MAX >> s == (1u64 << t) - 1) by (bit_vector)
            requires
                s + t == 64 && 2 <= t <= 62,
        ;
        lemma_u64_pow2_no_overflow(t as nat);
        lemma_u64_shl_is_mul(1u64, t);
        assert(spec_mask(k) == low_bits_mask(2 * k) as u64);
        lemma_u64_low_bits_mask_is_mod(x, 2 * k);
    } else {
        assert(x >> 0u64 == x) by (bit_vector);
        assert(x & u64::MAX == x) by (bit_vector);
        assert(u64::MAX >> 0u64 == u64::MAX) by (bit_vector);
        lemma2_to64_rest();
        lemma_small_mod(x as nat, pow2(64));
    }
}

/// A value already below `4^k` passes the width mask unchanged.
pub proof fn lemma_mask_noop(x: u64, k: nat)
    requires
        1 <= k <= 32,
        (x as nat) < pow2(2 * k),
    ensures
        x & spec_mask(k) == x,
{
    lemma_mask_is_mod(x, k);
    lemma_small_mod(x as nat, pow2(2 * k));
}

/// Or-ing a 2-bit code into a value whose low bit pair is clear is addition.
proof fn lemma_or_is_add_low2(x: u64, b: u64)
    requires
        x % 4 == 0,
        b < 4,
    ensures
        (x | b) == x + b,
{
    assert((x | b) == x + b) by (bit_vector)
        requires
            x % 4 == 0 && b < 4,
    ;
}

/// Or-ing a 2-bit code shifted above `t` bits into a value below `2^t` is
/// addition.
proof fn lemma_or_disjoint_shifted(lo: u64, b: u64, t: u64)
    requires
        t <= 62,
        b < 4,
        (lo as nat) < pow2(t as nat),
    ensures
        (lo | (b << t)) == lo + (b as nat) * pow2(t as nat),
{
    lemma_u64_pow2_no_overflow(t as nat);
    lemma_u64_shl_is_mul(1u64, t);
    assert((lo | (b << t)) == lo + (b << t)) by (bit_vector)
        requires
            b < 4 && t <= 62 && lo < (1u64 << t),
    ;
    if (t as nat) < 62 {
        lemma_pow2_strictly_increases(t as nat, 62);
    }
    lemma2_to64_rest();
    assert((b as int) * pow2(t as nat) <= 3 * pow2(62)) by (nonlinear_arith)
        requires
            b < 4 && pow2(t as nat) <= pow2(62),
    ;
    lemma_u64_shl_is_mul(b, t);
    lemma_pow2_adds(t as nat, 2);
    lemma2_to64();
    assert(lo + (b as nat) * pow2(t as nat) < 4 * pow2(t as nat)) by (nonlinear_arith)
        requires
            b < 4 && (lo as nat) < pow2(t as nat),
    ;
    lemma_pow2_adds(62, 2);
}

/// Shifting a new symbol into an accumulator that still has head room packs
/// it below the ones already there.
pub proof fn lemma_packed_push_bits(w: Seq<u8>, in_base: u8)
    requires
        valid_bases(w),
        w.len() <= 31,
        in_base < 4,
    ensures
        (((packed_value(w) as u64) << 2u64) | (in_base as u64)) == packed_value(w.push(in_base)),
        packed_value(w.push(in_base)) < pow2(2 * (w.len() + 1)),
{
    lemma_packed_value_bound(w);
    lemma_packed_value_fits(w);
    let h = packed_value(w) as u64;
    if 2 * w.len() < 62 {
        lemma_pow2_strictly_increases(2 * w.len(), 62);
    }
    lemma2_to64_rest();
    lemma2_to64();
    lemma_pow2_adds(62, 2);
    assert((h as int) * 4 <= u64::MAX) by (nonlinear_arith)
        requires
            (h as nat) < pow2(62) && 4 * pow2(62) == pow2(64) && pow2(64) == u64::MAX + 1,
    ;
    lemma_u64_shl_is_mul(h, 2);
    lemma_mod_multiples_vanish(h as int, 0, 4);
    lemma_mul_is_commutative(h as int, 4);
    lemma_or_is_add_low2(h << 2u64, in_base as u64);
    lemma_packed_value_push(w, in_base);
    assert(valid_bases(w.push(in_base))) by {
        assert(forall|i: int| 0 <= i < w.len() ==> w.push(in_base)[i] == w[i]);
        assert(w.push(in_base)[w.len() as int] == in_base);
    }
    lemma_packed_value_bound(w.push(in_base));
}

/// Rolling a not-yet-full accumulator forward appends the incoming symbol:
/// the width mask discards nothing.
pub proof fn lemma_roll_forward_grow(w: Seq<u8>, k: nat, in_base: u8)
    requires
        valid_bases(w),
        w.len() < k,
        k <= 32,
        in_base < 4,
    ensures
        spec_roll_forward(packed_value(w) as u64, k, in_base) == packed_value(w.push(in_base)),
{
    lemma_packed_push_bits(w, in_base);
    let y = ((packed_value(w) as u64) << 2u64) | (in_base as u64);
    if 2 * (w.len() + 1) < 2 * k {
        lemma_pow2_strictly_increases(2 * (w.len() + 1), 2 * k);
    }
    lemma_mask_noop(y, k);
}

/// Forward roll correctness on a full window: shifting in the next symbol
/// and masking to width yields the packed value of the window advanced by
/// one offset.
pub proof fn lemma_roll_forward_window(w: Seq<u8>, in_base: u8)
    requires
        valid_bases(w),
        2 <= w.len() <= 32,
        in_base < 4,
    ensures
        spec_roll_forward(packed_value(w) as u64, w.len() as nat, in_base) == packed_value(
            w.subrange(1, w.len() as int).push(in_base),
        ),
{
    let k = w.len();
    let h = packed_value(w);
    lemma_packed_value_bound(w);
    lemma_packed_value_fits(w);
    let hu = h as u64;
    let b = in_base as u64;
    let df = w.drop_first();
    assert(df =~= w.subrange(1, k as int));
    let tgt = df.push(in_base);
    lemma_packed_value_push(df, in_base);
    lemma_packed_value_drop_first(w);
    let m = pow2((2 * (k - 1)) as nat);
    lemma_pow2_pos((2 * (k - 1)) as nat);
    lemma_pow2_adds((2 * (k - 1)) as nat, 2);
    lemma2_to64();
    let q = (h as int) / (m as int);
    let r = (h as int) % (m as int);
    lemma_fundamental_div_mod(h as int, m as int);
    let y = (hu << 2u64) | b;
    if k <= 31 {
        if 2 * k < 62 {
            lemma_pow2_strictly_increases(2 * k, 62);
        }
        lemma2_to64_rest();
        lemma_pow2_adds(62, 2);
        assert((hu as int) * 4 <= u64::MAX) by (nonlinear_arith)
            requires
                (hu as nat) < pow2(62) && 4 * pow2(62) == pow2(64) && pow2(64) == u64::MAX + 1,
        ;
        lemma_u64_shl_is_mul(hu, 2);
        lemma_mod_multiples_vanish(hu as int, 0, 4);
        lemma_mul_is_commutative(hu as int, 4);
        lemma_or_is_add_low2(hu << 2u64, b);
        assert(y == 4 * h + b);
        lemma_mask_is_mod(y, k);
        assert(4 * h + b == (4 * m) * q + (4 * r + b)) by (nonlinear_arith)
            requires
                h == m * q + r,
        ;
        lemma_mod_multiples_vanish(q, 4 * r + b, 4 * (m as int));
        lemma_small_mod((4 * r + b) as nat, 4 * m);
    } else {
        assert(spec_mask(32) == u64::MAX) by {
            assert(u64::MAX >> 0u64 == u64::MAX) by (bit_vector);
        }
        assert(y & u64::MAX == y) by (bit_vector);
        assert(((hu << 2u64) | b) == (hu % (1u64 << 62u64)) * 4 + b) by (bit_vector)
            requires
                b < 4,
        ;
        lemma_u64_pow2_no_overflow(62);
        lemma_u64_shl_is_mul(1u64, 62);
        assert((hu % (1u64 << 62u64)) as nat == r);
        lemma_pow2_pos(62);
        assert(0 <= r < m);
        assert(4 * r + b < 4 * m);
        lemma_pow2_adds(62, 2);
        lemma2_to64_rest();
    }
}

/// Reverse roll correctness: shifting the accumulator down and placing the
/// incoming symbol at the top bit pair yields the packed value of the window
/// moved one offset backward.
pub proof fn lemma_roll_reverse_window(w: Seq<u8>, in_base: u8)
    requires
        valid_bases(w),
        2 <= w.len() <= 32,
        in_base < 4,
    ensures
        spec_roll_reverse(packed_value(w) as u64, w.len() as nat, in_base) == packed_value(
            seq![in_base] + w.drop_last(),
        ),
{
    let k = w.len();
    let h = packed_value(w);
    lemma_packed_value_fits(w);
    let hu = h as u64;
    let dl = w.drop_last();
    assert(valid_bases(dl)) by {
        assert(forall|i: int| 0 <= i < dl.len() ==> dl[i] == w[i]);
    }
    lemma_packed_value_bound(dl);
    assert(w.last() < 4);
    lemma_u64_shr_is_div(hu, 2);
    lemma2_to64();
    lemma_fundamental_div_mod_converse(h as int, 4, packed_value(dl) as int, w.last() as int);
    assert((hu >> 2u64) as nat == packed_value(dl));
    let tgt = seq![in_base] + dl;
    lemma_packed_value_split_first(tgt);
    assert(tgt[0] == in_base);
    assert(tgt.drop_first() =~= dl);
    let t: u64 = ((k - 1) * 2) as u64;
    lemma_or_disjoint_shifted(hu >> 2u64, in_base as u64, t);
}

/// Remove-forward correctness: masking to width `k - 1` yields the packed
/// value of the window with its leftmost symbol dropped.
pub proof fn lemma_remove_forward_window(w: Seq<u8>)
    requires
        valid_bases(w),
        2 <= w.len() <= 32,
    ensures
        spec_remove_forward(packed_value(w) as u64, w.len() as nat) == packed_value(
            w.drop_first(),
        ),
{
    lemma_packed_value_fits(w);
    lemma_mask_is_mod(packed_value(w) as u64, (w.len() - 1) as nat);
    lemma_packed_value_drop_first(w);
}

/// Remove-reverse correctness: shifting the accumulator down one bit pair
/// yields the packed value of the window with its rightmost symbol dropped.
pub proof fn lemma_remove_reverse_window(w: Seq<u8>)
    requires
        valid_bases(w),
        1 <= w.len() <= 32,
    ensures
        spec_remove_reverse(packed_value(w) as u64) == packed_value(w.drop_last()),
{
    lemma_packed_value_fits(w);
    let dl = w.drop_last();
    assert(valid_bases(dl)) by {
        assert(forall|i: int| 0 <= i < dl.len() ==> dl[i] == w[i]);
    }
    assert(w.last() < 4);
    lemma_u64_shr_is_div(packed_value(w) as u64, 2);
    lemma2_to64();
    lemma_fundamental_div_mod_converse(
        packed_value(w) as int,
        4,
        packed_value(dl) as int,
        w.last() as int,
    );
}

} // verus!
