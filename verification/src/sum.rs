//! Wrapping summation kernels over `i32` buffers.
//!
//! The scalar fold is the reference; the lane-parallel variant accumulates
//! eight columns independently and then reduces them, and the dispatcher
//! picks between the two from a caller preference and a runtime
//! processor-capability probe. All three return the same wraparound sum.

use vstd::prelude::*;
use vstd::wrapping::i32_specs;

verus! {

/// Left-to-right wraparound (two's-complement) sum of a sequence.
pub open spec fn sum_wrap(s: Seq<i32>) -> i32
    decreases s.len(),
{
    if s.len() == 0 {
        0i32
    } else {
        i32_specs::wrapping_add(sum_wrap(s.drop_last()), s.last())
    }
}

/// Unbounded integer sum of a sequence, for relating wraparound sums to
/// ordinary arithmetic.
pub open spec fn sum_int(s: Seq<i32>) -> int
    decreases s.len(),
{
    if s.len() == 0 {
        0
    } else {
        sum_int(s.drop_last()) + s.last()
    }
}

/// Extending a prefix by one element extends its wraparound sum by one
/// wrapping addition.
proof fn lemma_sum_wrap_step(s: Seq<i32>, i: int)
    requires
        0 <= i < s.len(),
    ensures
        sum_wrap(s.take(i + 1)) == i32_specs::wrapping_add(sum_wrap(s.take(i)), s[i]),
{
    let t = s.take(i + 1);
    assert(t.drop_last() =~= s.take(i));
    assert(t.last() == s[i]);
}

/// Extending a prefix by one element adds that element to its integer sum.
proof fn lemma_sum_int_step(s: Seq<i32>, i: int)
    requires
        0 <= i < s.len(),
    ensures
        sum_int(s.take(i + 1)) == sum_int(s.take(i)) + s[i],
{
    let t = s.take(i + 1);
    assert(t.drop_last() =~= s.take(i));
    assert(t.last() == s[i]);
}

/// `signed_crop` maps an integer to a value in `i32` range that differs from
/// it by a multiple of 2^32.
proof fn lemma_crop_congruent(n: int)
    ensures
        (n - i32_specs::signed_crop(n)) % 0x1_0000_0000 == 0,
{
    let d: int = 0x1_0000_0000;
    vstd::arithmetic::div_mod::lemma_fundamental_div_mod(n, d);
    vstd::arithmetic::div_mod::lemma_mod_division_less_than_divisor(n, d);
    vstd::arithmetic::div_mod::lemma_mod_multiples_basic(n / d, d);
    if (n % d) > i32::MAX {
        assert(n - (n % d - d) == (n / d + 1) * d) by (nonlinear_arith)
            requires
                n == d * (n / d) + (n % d),
        ;
        vstd::arithmetic::div_mod::lemma_mod_multiples_basic(n / d + 1, d);
    }
}

/// Two values in `i32` range that differ from `n` by multiples of 2^32 are
/// equal, so `signed_crop(n)` is the unique such value.
proof fn lemma_crop_unique(n: int, r: int)
    requires
        i32::MIN <= r <= i32::MAX,
        (n - r) % 0x1_0000_0000 == 0,
    ensures
        i32_specs::signed_crop(n) == r,
{
    let d: int = 0x1_0000_0000;
    lemma_crop_congruent(n);
    let c = i32_specs::signed_crop(n) as int;
    vstd::arithmetic::div_mod::lemma_small_mod(0nat, 0x1_0000_0000nat);
    vstd::arithmetic::div_mod::lemma_sub_mod_noop(n - r, n - c, d);
    assert((c - r) % d == 0);
    if c - r > 0 {
        vstd::arithmetic::div_mod::lemma_small_mod((c - r) as nat, 0x1_0000_0000nat);
    } else if c - r < 0 {
        vstd::arithmetic::div_mod::lemma_mod_add_multiples_vanish(c - r, d);
        vstd::arithmetic::div_mod::lemma_small_mod((d + c - r) as nat, 0x1_0000_0000nat);
    }
}

/// A wrapping addition is the crop of the exact sum.
proof fn lemma_wrapping_add_is_crop(a: i32, b: i32)
    ensures
        i32_specs::wrapping_add(a, b) == i32_specs::signed_crop(a + b),
{
    let d: int = 0x1_0000_0000;
    let r = i32_specs::wrapping_add(a, b) as int;
    vstd::arithmetic::div_mod::lemma_small_mod(0nat, 0x1_0000_0000nat);
    vstd::arithmetic::div_mod::lemma_mod_self_0(d);
    vstd::arithmetic::div_mod::lemma_mod_sub_multiples_vanish(0, d);
    lemma_crop_unique(a + b, r);
}

/// Cropping an addend first does not change the crop of a sum.
proof fn lemma_crop_add_absorb(n: int, m: int)
    ensures
        i32_specs::signed_crop(i32_specs::signed_crop(n) + m) == i32_specs::signed_crop(n + m),
{
    let d: int = 0x1_0000_0000;
    lemma_crop_congruent(n);
    lemma_crop_congruent(n + m);
    let c = i32_specs::signed_crop(n) as int;
    let t = i32_specs::signed_crop(n + m) as int;
    vstd::arithmetic::div_mod::lemma_small_mod(0nat, 0x1_0000_0000nat);
    vstd::arithmetic::div_mod::lemma_sub_mod_noop(n - c, n + m - t, d);
    assert((t - c - m) % d == 0);
    vstd::arithmetic::div_mod::lemma_sub_mod_noop(0, t - c - m, d);
    assert((c + m - t) % d == 0);
    lemma_crop_unique(c + m, t);
}

/// The wraparound sum of a sequence is the crop of its exact integer sum,
/// so any association and order of wrapping additions that preserves the
/// exact integer sum yields the same wraparound result.
pub proof fn lemma_sum_wrap_is_crop(s: Seq<i32>)
    ensures
        sum_wrap(s) == i32_specs::signed_crop(sum_int(s)),
    decreases s.len(),
{
    if s.len() == 0 {
        vstd::arithmetic::div_mod::lemma_small_mod(0nat, 0x1_0000_0000nat);
    } else {
        lemma_sum_wrap_is_crop(s.drop_last());
        lemma_wrapping_add_is_crop(sum_wrap(s.drop_last()), s.last());
        lemma_crop_add_absorb(sum_int(s.drop_last()), s.last() as int);
    }
}

/// Zero crops to zero.
proof fn lemma_crop_zero()
    ensures
        i32_specs::signed_crop(0) == 0,
{
    vstd::arithmetic::div_mod::lemma_small_mod(0nat, 0x1_0000_0000nat);
}

/// In a buffer whose length is a multiple of eight, at least one whole group
/// of eight elements follows any in-range position that is itself a multiple
/// of eight.
proof fn lemma_group_fits(len: int, i: int)
    requires
        len % 8 == 0,
        i % 8 == 0,
        0 <= i < len,
    ensures
        i + 8 <= len,
{
    vstd::arithmetic::div_mod::lemma_small_mod(0nat, 8nat);
    vstd::arithmetic::div_mod::lemma_sub_mod_noop(len, i, 8);
    if len - i < 8 {
        vstd::arithmetic::div_mod::lemma_small_mod((len - i) as nat, 8nat);
    }
}

/// Sums a buffer of 32-bit integers with wraparound on overflow.
pub fn sum_scalar(x: &[i32]) -> (r: i32)
    requires
        x@.len() % 8 == 0,
    ensures
        r == sum_wrap(x@),
{
    let mut acc: i32 = 0;
    let mut i: usize = 0;
    while i < x.len()
        invariant
            i <= x@.len(),
            acc == sum_wrap(x@.take(i as int)),
        decreases x@.len() - i,
    {
        proof {
            lemma_sum_wrap_step(x@, i as int);
        }
        acc = acc.wrapping_add(x[i]);
        i = i + 1;
    }
    proof {
        assert(x@.take(x@.len() as int) =~= x@);
    }
    acc
}

/// Sums a buffer of 32-bit integers with wraparound on overflow by
/// accumulating eight lanes column-wise, as a width-8 vector addition does,
/// and then reducing the lanes left to right.
pub fn sum_avx2(x: &[i32]) -> (r: i32)
    requires
        x@.len() % 8 == 0,
    ensures
        r == sum_wrap(x@),
{
    let mut l0: i32 = 0;
    let mut l1: i32 = 0;
    let mut l2: i32 = 0;
    let mut l3: i32 = 0;
    let mut l4: i32 = 0;
    let mut l5: i32 = 0;
    let mut l6: i32 = 0;
    let mut l7: i32 = 0;
    let ghost mut c0: int = 0;
    let ghost mut c1: int = 0;
    let ghost mut c2: int = 0;
    let ghost mut c3: int = 0;
    let ghost mut c4: int = 0;
    let ghost mut c5: int = 0;
    let ghost mut c6: int = 0;
    let ghost mut c7: int = 0;
    proof {
        lemma_crop_zero();
    }
    let mut i: usize = 0;
    while i < x.len()
        invariant
            i <= x@.len(),
            x@.len() % 8 == 0,
            i % 8 == 0,
            l0 == i32_specs::signed_crop(c0),
            l1 == i32_specs::signed_crop(c1),
            l2 == i32_specs::signed_crop(c2),
            l3 == i32_specs::signed_crop(c3),
            l4 == i32_specs::signed_crop(c4),
            l5 == i32_specs::signed_crop(c5),
            l6 == i32_specs::signed_crop(c6),
            l7 == i32_specs::signed_crop(c7),
            c0 + c1 + c2 + c3 + c4 + c5 + c6 + c7 == sum_int(x@.take(i as int)),
        decreases x@.len() - i,
    {
        proof {
            lemma_group_fits(x@.len() as int, i as int);
        }
        proof {
            lemma_wrapping_add_is_crop(l0, x@[i as int]);
            lemma_crop_add_absorb(c0, x@[i as int] as int);
        }
        l0 = l0.wrapping_add(x[i]);
        proof {
            c0 = c0 + x@[i as int];
        }
        proof {
            lemma_wrapping_add_is_crop(l1, x@[i as int + 1]);
            lemma_crop_add_absorb(c1, x@[i as int + 1] as int);
        }
        l1 = l1.wrapping_add(x[i + 1]);
        proof {
            c1 = c1 + x@[i as int + 1];
        }
        proof {
            lemma_wrapping_add_is_crop(l2, x@[i as int + 2]);
            lemma_crop_add_absorb(c2, x@[i as int + 2] as int);
        }
        l2 = l2.wrapping_add(x[i + 2]);
        proof {
            c2 = c2 + x@[i as int + 2];
        }
        proof {
            lemma_wrapping_add_is_crop(l3, x@[i as int + 3]);
            lemma_crop_add_absorb(c3, x@[i as int + 3] as int);
        }
        l3 = l3.wrapping_add(x[i + 3]);
        proof {
            c3 = c3 + x@[i as int + 3];
        }
        proof {
            lemma_wrapping_add_is_crop(l4, x@[i as int + 4]);
            lemma_crop_add_absorb(c4, x@[i as int + 4] as int);
        }
        l4 = l4.wrapping_add(x[i + 4]);
        proof {
            c4 = c4 + x@[i as int + 4];
        }
        proof {
            lemma_wrapping_add_is_crop(l5, x@[i as int + 5]);
            lemma_crop_add_absorb(c5, x@[i as int + 5] as int);
        }
        l5 = l5.wrapping_add(x[i + 5]);
        proof {
            c5 = c5 + x@[i as int + 5];
        }
        proof {
            lemma_wrapping_add_is_crop(l6, x@[i as int + 6]);
            lemma_crop_add_absorb(c6, x@[i as int + 6] as int);
        }
        l6 = l6.wrapping_add(x[i + 6]);
        proof {
            c6 = c6 + x@[i as int + 6];
        }
        proof {
            lemma_wrapping_add_is_crop(l7, x@[i as int + 7]);
            lemma_crop_add_absorb(c7, x@[i as int + 7] as int);
        }
        l7 = l7.wrapping_add(x[i + 7]);
        proof {
            c7 = c7 + x@[i as int + 7];
        }
        proof {
            lemma_sum_int_step(x@, i as int);
            lemma_sum_int_step(x@, i as int + 1);
            lemma_sum_int_step(x@, i as int + 2);
            lemma_sum_int_step(x@, i as int + 3);
            lemma_sum_int_step(x@, i as int + 4);
            lemma_sum_int_step(x@, i as int + 5);
            lemma_sum_int_step(x@, i as int + 6);
            lemma_sum_int_step(x@, i as int + 7);
        }
        i = i + 8;
    }
    proof {
        assert(x@.take(x@.len() as int) =~= x@);
    }
    let ghost mut g: int = c0;
    let mut h: i32 = l0;
    proof {
        lemma_wrapping_add_is_crop(h, l1);
        lemma_crop_add_absorb(g, l1 as int);
        lemma_crop_add_absorb(c1, g);
    }
    h = h.wrapping_add(l1);
    proof {
        g = g + c1;
    }
    proof {
        lemma_wrapping_add_is_crop(h, l2);
        lemma_crop_add_absorb(g, l2 as int);
        lemma_crop_add_absorb(c2, g);
    }
    h = h.wrapping_add(l2);
    proof {
        g = g + c2;
    }
    proof {
        lemma_wrapping_add_is_crop(h, l3);
        lemma_crop_add_absorb(g, l3 as int);
        lemma_crop_add_absorb(c3, g);
    }
    h = h.wrapping_add(l3);
    proof {
        g = g + c3;
    }
    proof {
        lemma_wrapping_add_is_crop(h, l4);
        lemma_crop_add_absorb(g, l4 as int);
        lemma_crop_add_absorb(c4, g);
    }
    h = h.wrapping_add(l4);
    proof {
        g = g + c4;
    }
    proof {
        lemma_wrapping_add_is_crop(h, l5);
        lemma_crop_add_absorb(g, l5 as int);
        lemma_crop_add_absorb(c5, g);
    }
    h = h.wrapping_add(l5);
    proof {
        g = g + c5;
    }
    proof {
        lemma_wrapping_add_is_crop(h, l6);
        lemma_crop_add_absorb(g, l6 as int);
        lemma_crop_add_absorb(c6, g);
    }
    h = h.wrapping_add(l6);
    proof {
        g = g + c6;
    }
    proof {
        lemma_wrapping_add_is_crop(h, l7);
        lemma_crop_add_absorb(g, l7 as int);
        lemma_crop_add_absorb(c7, g);
    }
    h = h.wrapping_add(l7);
    proof {
        g = g + c7;
        lemma_sum_wrap_is_crop(x@);
    }
    h
}

/// Relies on `raw_cpuid::CpuId::new`, `CpuId::get_extended_feature_info` and
/// `ExtendedFeatures::has_avx2` to ask the processor whether the AVX2 vector
/// extension is present. The answer depends on the machine alone, so nothing
/// is stated of it; both dispatch branches meet the same contract whatever it
/// is.
#[verifier::external_body]
fn avx2_supported() -> bool {
    match raw_cpuid::CpuId::new().get_extended_feature_info() {
        Some(features) => features.has_avx2(),
        None => false,
    }
}

/// Sums a buffer of 32-bit integers with wraparound on overflow, delegating
/// to the lane-parallel strategy when the caller prefers it and the processor
/// reports the vector extension, and to the scalar fold otherwise. The chosen
/// strategy never changes the result.
pub fn sum(x: &[i32], simd_preferred: bool) -> (r: i32)
    requires
        x@.len() % 8 == 0,
    ensures
        r == sum_wrap(x@),
{
    if simd_preferred && avx2_supported() {
        sum_avx2(x)
    } else {
        sum_scalar(x)
    }
}

} // verus!
