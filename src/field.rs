//! Elements of the BLS12-381 scalar field, held as four little-endian `u64`
//! limbs of the canonical representative. Arithmetic is done by `paired`.

use fff::{Field, PrimeField};
use paired::bls12_381::{Fr, FrRepr};
use vstd::arithmetic::div_mod::{lemma_mul_mod_noop_left, lemma_mul_mod_noop_right};
use vstd::prelude::*;

verus! {

/// The order of the BLS12-381 scalar field.
pub open spec fn modulus() -> int {
    limbs_value([0xffff_ffff_0000_0001, 0x53bd_a402_fffe_5bfe, 0x3339_d808_09a1_d805, 0x73ed_a753_299d_7d48])
}

/// The integer that four little-endian limbs spell.
pub open spec fn limbs_value(l: [u64; 4]) -> int {
    l[0] as int + 0x1_0000_0000_0000_0000 * (l[1] as int + 0x1_0000_0000_0000_0000 * (
    l[2] as int + 0x1_0000_0000_0000_0000 * l[3] as int))
}

/// Product in the field.
pub open spec fn fmul(a: int, b: int) -> int {
    (a * b) % modulus()
}

/// `a` raised to the power `e` in the field.
pub open spec fn fpow(a: int, e: nat) -> int
    decreases e,
{
    if e == 0 {
        1
    } else {
        fmul(fpow(a, (e - 1) as nat), a)
    }
}

/// A field element in canonical form: `value() < modulus()` when well formed.
#[derive(Clone, Copy, Debug, PartialEq, Eq)]
pub struct Scalar {
    pub limbs: [u64; 4],
}

impl Scalar {
    pub open spec fn value(&self) -> int {
        limbs_value(self.limbs)
    }

    pub open spec fn wf(&self) -> bool {
        self.value() < modulus()
    }

    /// The additive identity.
    pub fn zero() -> (r: Scalar)
        ensures
            r.wf(),
            r.value() == 0,
    {
        Scalar { limbs: [0u64, 0u64, 0u64, 0u64] }
    }

    /// The multiplicative identity.
    pub fn one() -> (r: Scalar)
        ensures
            r.wf(),
            r.value() == 1,
    {
        Scalar { limbs: [1u64, 0u64, 0u64, 0u64] }
    }
}

/// Relies on `Field::mul_assign` of `paired::bls12_381::Fr`: multiplication
/// modulo the field order. `from_repr` accepts canonical limbs and
/// `into_repr` returns canonical limbs.
#[verifier::external_body]
pub(crate) fn field_mul(a: &Scalar, b: &Scalar) -> (r: Scalar)
    requires
        a.wf(),
        b.wf(),
    ensures
        r.wf(),
        r.value() == fmul(a.value(), b.value()),
{
    let mut x = Fr::from_repr(FrRepr(a.limbs)).unwrap();
    let y = Fr::from_repr(FrRepr(b.limbs)).unwrap();
    x.mul_assign(&y);
    Scalar { limbs: x.into_repr().0 }
}

/// Relies on `Field::pow` of `paired::bls12_381::Fr`: exponentiation by a
/// single-limb exponent, starting from one.
#[verifier::external_body]
pub(crate) fn field_pow(a: &Scalar, e: u64) -> (r: Scalar)
    requires
        a.wf(),
    ensures
        r.wf(),
        r.value() == fpow(a.value(), e as nat),
{
    let x = Fr::from_repr(FrRepr(a.limbs)).unwrap();
    Scalar { limbs: x.pow([e]).into_repr().0 }
}

/// Powers of an element stay in the canonical range.
pub proof fn lemma_fpow_range(a: int, e: nat)
    ensures
        0 <= fpow(a, e) < modulus(),
    decreases e,
{
    if e > 0 {
        lemma_fpow_range(a, (e - 1) as nat);
    }
}

/// Exponents add: `a^(i + j) == a^i * a^j`.
pub proof fn lemma_fpow_add(a: int, i: nat, j: nat)
    ensures
        fpow(a, i + j) == fmul(fpow(a, i), fpow(a, j)),
    decreases j,
{
    let m = modulus();
    lemma_fpow_range(a, i);
    if j == 0 {
        assert(fpow(a, i + j) == fpow(a, i));
        vstd::arithmetic::div_mod::lemma_small_mod(fpow(a, i) as nat, m as nat);
    } else {
        let j1 = (j - 1) as nat;
        lemma_fpow_add(a, i, j1);
        assert(i + j - 1 == i + j1);
        let x = fpow(a, i);
        let y = fpow(a, j1);
        // (x * y % m) * a % m == x * (y * a % m) % m
        lemma_mul_mod_noop_left(x * y, a, m);
        lemma_mul_mod_noop_right(x, y * a, m);
        assert(x * y * a == x * (y * a)) by (nonlinear_arith);
    }
}

/// Squaring `a^k` gives `a^(2k)`.
pub proof fn lemma_fpow_square(a: int, k: nat)
    ensures
        fpow(fpow(a, k), 2) == fpow(a, 2 * k),
{
    let y = fpow(a, k);
    lemma_fpow_range(a, k);
    vstd::arithmetic::div_mod::lemma_small_mod(y as nat, modulus() as nat);
    reveal_with_fuel(fpow, 3);
    assert(fpow(y, 1) == fmul(1, y));
    assert(fpow(y, 2) == fmul(y, y));
    lemma_fpow_add(a, k, k);
    assert(k + k == 2 * k);
}

} // verus!
