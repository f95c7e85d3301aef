//! The two tables that the transform kernels read: the radix twiddle table
//! `pq` and the table `omg` of repeated squares of the root of unity.

use crate::field::{fpow, lemma_fpow_square, field_mul, field_pow, Scalar};
use vstd::arithmetic::power2::{lemma2_to64, lemma_pow2_unfold, pow2};
use vstd::bits::{lemma_u64_shl_is_mul, lemma_u64_shr_is_div};
use vstd::prelude::*;

verus! {

/// Largest radix degree of one stage (radix 256).
pub const MAX_RADIX_DEGREE: u32 = 8;

/// Log2 of the largest supported transform size.
pub const LOG2_MAX_ELEMENTS: usize = 32;

/// Number of entries of the twiddle table on the device: `2^(MAX_RADIX_DEGREE - 1)`.
pub const PQ_LEN: usize = 128;

/// The root that the twiddle table is built from: `omega^(n / 2^max_deg)`.
pub open spec fn twiddle_root(omega: int, n: nat, max_deg: nat) -> int {
    fpow(omega, n / pow2(max_deg))
}

/// Number of valid entries of the twiddle table for `max_deg`.
pub open spec fn pq_valid_len(max_deg: nat) -> nat {
    pow2((max_deg - 1) as nat)
}

/// Builds the twiddle table for a transform of size `n` whose stages have
/// degree at most `max_deg`: entry `i` is `tw^i` for `i < 2^(max_deg-1)`,
/// where `tw = omega^(n >> max_deg)`; the rest of the 128 entries are zero.
pub fn pq_table(omega: &Scalar, n: u64, max_deg: u32) -> (r: Vec<Scalar>)
    requires
        omega.wf(),
        1 <= max_deg <= MAX_RADIX_DEGREE,
    ensures
        r@.len() == PQ_LEN,
        forall|i: int|
            0 <= i < pq_valid_len(max_deg as nat) ==> (#[trigger] r@[i]).wf() && r@[i].value()
                == fpow(twiddle_root(omega.value(), n as nat, max_deg as nat), i as nat),
        forall|i: int| pq_valid_len(max_deg as nat) <= i < PQ_LEN ==> (#[trigger] r@[i]).value() == 0,
{
    proof {
        lemma2_to64();
        lemma_u64_shr_is_div(n, max_deg as u64);
        lemma_u64_shl_is_mul(1, (max_deg - 1) as u64);
    }
    let tw = field_pow(omega, n >> (max_deg as u64));
    let half: u64 = 1u64 << ((max_deg - 1) as u64);
    assert(half == pq_valid_len(max_deg as nat));
    assert(half <= 128);
    let ghost w = tw.value();
    let mut table: Vec<Scalar> = Vec::new();
    let mut cur = Scalar::one();
    table.push(cur);
    let mut i: u64 = 1;
    while i < half
        invariant
            1 <= i <= half <= 128,
            tw.wf(),
            w == twiddle_root(omega.value(), n as nat, max_deg as nat),
            w == tw.value(),
            table@.len() == i,
            cur == table@[i - 1],
            forall|j: int| 0 <= j < i ==> (#[trigger] table@[j]).wf() && table@[j].value() == fpow(w, j as nat),
        decreases half - i,
    {
        cur = field_mul(&cur, &tw);
        assert(fpow(w, i as nat) == crate::field::fmul(fpow(w, (i - 1) as nat), w));
        table.push(cur);
        i = i + 1;
    }
    let mut k: usize = half as usize;
    while k < PQ_LEN
        invariant
            half <= k <= PQ_LEN,
            half == pq_valid_len(max_deg as nat),
            table@.len() == k,
            forall|j: int| 0 <= j < half ==> (#[trigger] table@[j]).wf() && table@[j].value() == fpow(w, j as nat),
            forall|j: int| half <= j < k ==> (#[trigger] table@[j]).value() == 0,
        decreases PQ_LEN - k,
    {
        table.push(Scalar::zero());
        k = k + 1;
    }
    table
}

/// Builds the table of repeated squares of `omega`: entry `i` is
/// `omega^(2^i)` for each `i < 32`.
pub fn omg_table(omega: &Scalar) -> (r: Vec<Scalar>)
    requires
        omega.wf(),
    ensures
        r@.len() == LOG2_MAX_ELEMENTS,
        r@[0] == *omega,
        forall|i: int|
            0 <= i < LOG2_MAX_ELEMENTS ==> (#[trigger] r@[i]).wf() && r@[i].value() == fpow(omega.value(), pow2(i as nat)),
{
    proof {
        reveal_with_fuel(fpow, 2);
        lemma2_to64();
        vstd::arithmetic::div_mod::lemma_small_mod(omega.value() as nat, crate::field::modulus() as nat);
        assert(fpow(omega.value(), 1) == omega.value());
    }
    let mut table: Vec<Scalar> = Vec::new();
    table.push(*omega);
    let mut i: usize = 1;
    while i < LOG2_MAX_ELEMENTS
        invariant
            1 <= i <= LOG2_MAX_ELEMENTS,
            table@.len() == i,
            table@[0] == *omega,
            forall|j: int|
                0 <= j < i ==> (#[trigger] table@[j]).wf() && table@[j].value() == fpow(omega.value(), pow2(j as nat)),
        decreases LOG2_MAX_ELEMENTS - i,
    {
        let prev = table[i - 1];
        let next = field_pow(&prev, 2);
        proof {
            lemma_fpow_square(omega.value(), pow2((i - 1) as nat));
            lemma_pow2_unfold(i as nat);
        }
        table.push(next);
        i = i + 1;
    }
    table
}

} // verus!
