//! The foreign base field that circuits must emulate: the prime field of
//! order 2^64 - 2^32 + 1, together with its quadratic extension.
//!
//! These types are pure mathematics — no context, no side effects. They are
//! the ground truth that the in-circuit emulation is proved to match.

use vstd::prelude::*;
use vstd::arithmetic::div_mod::{
    lemma_add_mod_noop, lemma_mod_twice, lemma_mul_mod_noop_general,
    lemma_small_mod,
};
use vstd::arithmetic::mul::lemma_mul_upper_bound;
use vstd::arithmetic::power::{
    lemma_pow0, lemma_pow1, lemma_pow_adds, lemma_pow_mod_noop, lemma_pow_multiplies,
    lemma_square_is_pow2, pow,
};

verus! {

/// The Goldilocks prime, 2^64 - 2^32 + 1.
pub const GOLDILOCKS_MODULUS: u64 = 0xFFFF_FFFF_0000_0001;

/// The Goldilocks modulus as a mathematical integer.
pub open spec fn gp() -> int {
    0xFFFF_FFFF_0000_0001
}

/// Addition in the Goldilocks field, on canonical residues.
pub open spec fn gl_add(a: int, b: int) -> int {
    (a + b) % gp()
}

/// Multiplication in the Goldilocks field, on canonical residues.
pub open spec fn gl_mul(a: int, b: int) -> int {
    (a * b) % gp()
}

/// Negation in the Goldilocks field, on canonical residues.
pub open spec fn gl_neg(a: int) -> int {
    (gp() - a) % gp()
}

/// Subtraction in the Goldilocks field, on canonical residues.
pub open spec fn gl_sub(a: int, b: int) -> int {
    (a + gp() - b) % gp()
}

/// Doubling in the Goldilocks field, on canonical residues.
pub open spec fn gl_double(a: int) -> int {
    (2 * a) % gp()
}

/// Squaring in the Goldilocks field, on canonical residues.
pub open spec fn gl_square(a: int) -> int {
    (a * a) % gp()
}

/// The multiplicative inverse in the Goldilocks field, defined through
/// Fermat exponentiation: a^(p-2) mod p. For a = 0 this yields 0.
pub open spec fn gl_inv(a: int) -> int {
    pow(a, (gp() - 2) as nat) % gp()
}

/// An element of the Goldilocks field, stored as a canonical residue.
#[derive(Clone, Copy, Debug, PartialEq, Eq, Structural, Hash)]
pub struct Goldilocks {
    pub v: u64,
}

impl Goldilocks {
    /// The canonical residue is strictly below the modulus.
    pub open spec fn wf(self) -> bool {
        self.v < GOLDILOCKS_MODULUS
    }

    /// The mathematical value of this element.
    pub open spec fn value(self) -> int {
        self.v as int
    }

    /// Builds the element with the given canonical residue.
    pub fn new(v: u64) -> (r: Self)
        requires
            v < GOLDILOCKS_MODULUS,
        ensures
            r.wf(),
            r.value() == v as int,
    {
        Goldilocks { v }
    }

    /// Reduces an arbitrary machine word into the field.
    pub fn from_u64(v: u64) -> (r: Self)
        ensures
            r.wf(),
            r.value() == v as int % gp(),
    {
        Goldilocks { v: v % GOLDILOCKS_MODULUS }
    }

    /// Reads the canonical residue back out.
    pub fn to_u64(self) -> (r: u64)
        ensures
            r as int == self.value(),
    {
        self.v
    }

    /// The additive identity.
    pub fn zero() -> (r: Self)
        ensures
            r.wf(),
            r.value() == 0,
    {
        Goldilocks { v: 0 }
    }

    /// The multiplicative identity.
    pub fn one() -> (r: Self)
        ensures
            r.wf(),
            r.value() == 1,
    {
        Goldilocks { v: 1 }
    }

    /// The additive inverse of the multiplicative identity.
    pub fn minus_one() -> (r: Self)
        ensures
            r.wf(),
            r.value() == gp() - 1,
    {
        Goldilocks { v: GOLDILOCKS_MODULUS - 1 }
    }

    /// Field addition.
    pub fn add(self, other: Self) -> (r: Self)
        requires
            self.wf(),
            other.wf(),
        ensures
            r.wf(),
            r.value() == gl_add(self.value(), other.value()),
    {
        let s: u128 = self.v as u128 + other.v as u128;
        let red: u128 = s % (GOLDILOCKS_MODULUS as u128);
        Goldilocks { v: red as u64 }
    }

    /// Field negation.
    pub fn neg(self) -> (r: Self)
        requires
            self.wf(),
        ensures
            r.wf(),
            r.value() == gl_neg(self.value()),
    {
        if self.v == 0 {
            proof {
                assert(gl_neg(0) == 0) by {
                    assert(gp() % gp() == 0);
                }
            }
            Goldilocks { v: 0 }
        } else {
            proof {
                lemma_small_mod((gp() - self.v as int) as nat, gp() as nat);
            }
            Goldilocks { v: GOLDILOCKS_MODULUS - self.v }
        }
    }

    /// Field subtraction.
    pub fn sub(self, other: Self) -> (r: Self)
        requires
            self.wf(),
            other.wf(),
        ensures
            r.wf(),
            r.value() == gl_sub(self.value(), other.value()),
    {
        let d: u64 = if self.v >= other.v {
            self.v - other.v
        } else {
            self.v + (GOLDILOCKS_MODULUS - other.v)
        };
        proof {
            lemma_small_mod(d as nat, gp() as nat);
        }
        Goldilocks { v: d }
    }

    /// Field multiplication.
    pub fn mul(self, other: Self) -> (r: Self)
        requires
            self.wf(),
            other.wf(),
        ensures
            r.wf(),
            r.value() == gl_mul(self.value(), other.value()),
    {
        proof {
            lemma_mul_upper_bound(
                self.v as int,
                0xFFFF_FFFF_0000_0000,
                other.v as int,
                0xFFFF_FFFF_0000_0000,
            );
        }
        let p: u128 = self.v as u128 * other.v as u128;
        let red: u128 = p % (GOLDILOCKS_MODULUS as u128);
        Goldilocks { v: red as u64 }
    }

    /// Modular exponentiation by a machine word, square-and-multiply from
    /// the least significant bit of the exponent.
    pub fn pow_u64(self, e: u64) -> (r: Self)
        requires
            self.wf(),
        ensures
            r.wf(),
            r.value() == pow(self.value(), e as nat) % gp(),
    {
        let mut acc = Goldilocks::one();
        let mut base = self;
        let mut w: u64 = e;
        proof {
            lemma_pow_mod_noop(self.value(), e as nat, gp());
        }
        while w != 0
            invariant
                acc.wf(),
                base.wf(),
                (acc.value() * pow(base.value(), w as nat)) % gp() == pow(
                    self.value(),
                    e as nat,
                ) % gp(),
            decreases w,
        {
            let ghost a0 = acc.value();
            let ghost b0 = base.value();
            let ghost w0 = w as nat;
            let bit: u64 = w % 2;
            if bit == 1 {
                acc = acc.mul(base);
            }
            base = base.mul(base);
            w = w / 2;
            proof {
                let w1 = w as nat;
                // the old exponent splits into the consumed bit and twice the rest
                assert(w0 == 2 * w1 + bit);
                lemma_square_is_pow2(b0);
                lemma_pow_multiplies(b0, 2, w1);
                lemma_pow_mod_noop(b0 * b0, w1, gp());
                assert(pow(base.value(), w1) % gp() == pow(b0, 2 * w1) % gp());
                lemma_pow_adds(b0, 2 * w1, bit as nat);
                if bit == 1 {
                    lemma_pow1(b0);
                    // fold the reduced factors back together under the modulus
                    lemma_mul_mod_noop_general(a0 * b0, pow(b0, 2 * w1), gp());
                    lemma_mul_mod_noop_general(a0, b0, gp());
                    assert(acc.value() == (a0 * b0) % gp());
                    assert((acc.value() * (pow(base.value(), w1) % gp())) % gp() == (a0 * b0
                        * pow(b0, 2 * w1)) % gp()) by {
                        lemma_mod_twice(acc.value(), gp());
                        lemma_mul_mod_noop_general(acc.value(), pow(b0, 2 * w1), gp());
                    }
                    lemma_mul_mod_noop_general(acc.value(), pow(base.value(), w1), gp());
                    assert(a0 * b0 * pow(b0, 2 * w1) == a0 * pow(b0, w0)) by {
                        assert(pow(b0, w0) == pow(b0, 2 * w1) * b0);
                        assert(a0 * b0 * pow(b0, 2 * w1) == a0 * (pow(b0, 2 * w1) * b0))
                            by (nonlinear_arith);
                    }
                    lemma_mul_mod_noop_general(a0, pow(b0, w0), gp());
                } else {
                    lemma_pow0(b0);
                    assert(pow(b0, w0) == pow(b0, 2 * w1));
                    lemma_mul_mod_noop_general(acc.value(), pow(base.value(), w1), gp());
                    lemma_mul_mod_noop_general(a0, pow(b0, 2 * w1), gp());
                    lemma_small_mod(acc.value() as nat, gp() as nat);
                }
                lemma_mul_mod_noop_general(a0, pow(b0, w0), gp());
                lemma_small_mod(a0 as nat, gp() as nat);
            }
        }
        proof {
            lemma_pow0(base.value());
            lemma_small_mod(acc.value() as nat, gp() as nat);
        }
        acc
    }

    /// The multiplicative inverse, through Fermat exponentiation.
    /// Inversion of zero fails: zero has no multiplicative inverse.
    pub fn invert(self) -> (r: Result<Self, crate::FieldError>)
        requires
            self.wf(),
        ensures
            match r {
                Ok(v) => self.value() != 0 && v.wf() && v.value() == gl_inv(self.value()),
                Err(e) => self.value() == 0 && e == crate::FieldError::DivisionByZero,
            },
    {
        if self.v == 0 {
            Err(crate::FieldError::DivisionByZero)
        } else {
            Ok(self.pow_u64(GOLDILOCKS_MODULUS - 2))
        }
    }
}

/// First coefficient of a product in the quadratic extension, whose
/// defining polynomial is x^2 - 7 (7 is not a square in the base field).
pub open spec fn ext_mul_c0(a0: int, a1: int, b0: int, b1: int) -> int {
    (a0 * b0 + 7 * (a1 * b1)) % gp()
}

/// Second coefficient of a product in the quadratic extension.
pub open spec fn ext_mul_c1(a0: int, a1: int, b0: int, b1: int) -> int {
    (a0 * b1 + a1 * b0) % gp()
}

/// The norm of an extension element: a0^2 - 7 a1^2. It vanishes only on the
/// zero element, because 7 is not a square in the base field.
pub open spec fn ext_norm(a0: int, a1: int) -> int {
    (a0 * a0 - 7 * (a1 * a1)) % gp()
}

/// An element of the quadratic extension of the Goldilocks field,
/// as coefficients of 1 and of the root of x^2 - 7.
#[derive(Clone, Copy, Debug, PartialEq, Eq, Structural, Hash)]
pub struct GoldilocksExt2 {
    pub c0: Goldilocks,
    pub c1: Goldilocks,
}

impl GoldilocksExt2 {
    /// Both coefficients are canonical residues.
    pub open spec fn wf(self) -> bool {
        self.c0.wf() && self.c1.wf()
    }

    /// Builds an extension element from its two coefficients.
    pub fn new(c0: Goldilocks, c1: Goldilocks) -> (r: Self)
        requires
            c0.wf(),
            c1.wf(),
        ensures
            r.wf(),
            r.c0 == c0,
            r.c1 == c1,
    {
        GoldilocksExt2 { c0, c1 }
    }

    /// Embeds a base-field element as a scalar of the extension.
    pub fn from_base(v: Goldilocks) -> (r: Self)
        requires
            v.wf(),
        ensures
            r.wf(),
            r.c0 == v,
            r.c1.value() == 0,
    {
        GoldilocksExt2 { c0: v, c1: Goldilocks::zero() }
    }

    /// Component-wise addition.
    pub fn add(self, other: Self) -> (r: Self)
        requires
            self.wf(),
            other.wf(),
        ensures
            r.wf(),
            r.c0.value() == gl_add(self.c0.value(), other.c0.value()),
            r.c1.value() == gl_add(self.c1.value(), other.c1.value()),
    {
        GoldilocksExt2 { c0: self.c0.add(other.c0), c1: self.c1.add(other.c1) }
    }

    /// Component-wise negation.
    pub fn neg(self) -> (r: Self)
        requires
            self.wf(),
        ensures
            r.wf(),
            r.c0.value() == gl_neg(self.c0.value()),
            r.c1.value() == gl_neg(self.c1.value()),
    {
        GoldilocksExt2 { c0: self.c0.neg(), c1: self.c1.neg() }
    }

    /// Multiplication, combining the cross terms with the non-residue 7.
    pub fn mul(self, other: Self) -> (r: Self)
        requires
            self.wf(),
            other.wf(),
        ensures
            r.wf(),
            r.c0.value() == ext_mul_c0(
                self.c0.value(),
                self.c1.value(),
                other.c0.value(),
                other.c1.value(),
            ),
            r.c1.value() == ext_mul_c1(
                self.c0.value(),
                self.c1.value(),
                other.c0.value(),
                other.c1.value(),
            ),
    {
        let ghost a0 = self.c0.value();
        let ghost a1 = self.c1.value();
        let ghost b0 = other.c0.value();
        let ghost b1 = other.c1.value();
        let seven = Goldilocks { v: 7 };
        let t00 = self.c0.mul(other.c0);
        let t11 = self.c1.mul(other.c1);
        let cross = t11.mul(seven);
        let c0 = t00.add(cross);
        let t01 = self.c0.mul(other.c1);
        let t10 = self.c1.mul(other.c0);
        let c1 = t01.add(t10);
        proof {
            // fold the reduced partial products back under one modulus
            lemma_mul_mod_noop_general(a1 * b1, 7, gp());
            assert(cross.value() == (a1 * b1 * 7) % gp());
            lemma_add_mod_noop(a0 * b0, a1 * b1 * 7, gp());
            lemma_small_mod((a0 * b0 % gp()) as nat, gp() as nat);
            lemma_small_mod((a1 * b1 * 7 % gp()) as nat, gp() as nat);
            assert(a1 * b1 * 7 == 7 * (a1 * b1)) by (nonlinear_arith);
            lemma_add_mod_noop(a0 * b1, a1 * b0, gp());
            lemma_small_mod((a0 * b1 % gp()) as nat, gp() as nat);
            lemma_small_mod((a1 * b0 % gp()) as nat, gp() as nat);
        }
        GoldilocksExt2 { c0, c1 }
    }

    /// The multiplicative inverse: the conjugate divided by the norm.
    /// Inversion of zero fails; the norm vanishes only on zero because 7
    /// is not a square in the base field.
    pub fn invert(self) -> (r: Result<Self, crate::FieldError>)
        requires
            self.wf(),
        ensures
            match r {
                Ok(v) => {
                    &&& ext_norm(self.c0.value(), self.c1.value()) != 0
                    &&& v.wf()
                    &&& v.c0.value() == gl_mul(
                        self.c0.value(),
                        gl_inv(ext_norm(self.c0.value(), self.c1.value())),
                    )
                    &&& v.c1.value() == gl_mul(
                        gl_neg(self.c1.value()),
                        gl_inv(ext_norm(self.c0.value(), self.c1.value())),
                    )
                },
                Err(e) => {
                    &&& ext_norm(self.c0.value(), self.c1.value()) == 0
                    &&& e == crate::FieldError::DivisionByZero
                },
            },
    {
        let ghost a0 = self.c0.value();
        let ghost a1 = self.c1.value();
        let seven = Goldilocks { v: 7 };
        let sq0 = self.c0.mul(self.c0);
        let sq1 = self.c1.mul(self.c1);
        let cross = sq1.mul(seven);
        let norm = sq0.sub(cross);
        proof {
            // the two reductions agree with the single reduction in the spec
            lemma_mul_mod_noop_general(a1 * a1, 7, gp());
            assert(cross.value() == (a1 * a1 * 7) % gp());
            assert(a1 * a1 * 7 == 7 * (a1 * a1)) by (nonlinear_arith);
            vstd::arithmetic::div_mod::lemma_sub_mod_noop(a0 * a0, 7 * (a1 * a1), gp());
            lemma_small_mod((a0 * a0 % gp()) as nat, gp() as nat);
            assert((a0 * a0 % gp() - 7 * (a1 * a1) % gp()) % gp() == ext_norm(a0, a1));
            assert(norm.value() == (a0 * a0 % gp() + gp() - 7 * (a1 * a1) % gp()) % gp());
            vstd::arithmetic::div_mod::lemma_mod_add_multiples_vanish(
                a0 * a0 % gp() - 7 * (a1 * a1) % gp(),
                gp(),
            );
        }
        if norm.v == 0 {
            Err(crate::FieldError::DivisionByZero)
        } else {
            let ninv = norm.pow_u64(GOLDILOCKS_MODULUS - 2);
            let c0 = self.c0.mul(ninv);
            let c1 = self.c1.neg().mul(ninv);
            Ok(GoldilocksExt2 { c0, c1 })
        }
    }
}

} // verus!
