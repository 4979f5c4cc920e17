//! The native prime field of the proving curve: integers modulo the
//! 256-bit prime Q = 2^256 - 2^32 - 977, with multiplicative generator 2.
//!
//! Elements are stored as four 64-bit little-endian limbs that always
//! denote a canonical residue (strictly below the modulus). All operations
//! are pure value arithmetic: no context and no side effects.

use vstd::prelude::*;
use vstd::arithmetic::div_mod::{
    lemma_add_mod_noop, lemma_add_mod_noop_right, lemma_fundamental_div_mod,
    lemma_mul_mod_noop_general, lemma_mul_mod_noop_left, lemma_mul_mod_noop_right,
    lemma_small_mod,
};
use vstd::arithmetic::power::{
    lemma_pow0, lemma_pow1, lemma_pow_adds, lemma_pow_mod_noop, lemma_pow_multiplies,
    lemma_square_is_pow2, pow,
};
use vstd::arithmetic::power2::{lemma2_to64, lemma_pow2_unfold, pow2};

verus! {

/// Lowest limb of the modulus; the three upper limbs are all ones.
pub const Q_LIMB0: u64 = 0xFFFF_FFFE_FFFF_FC2F;

/// The modulus Q as a mathematical integer.
pub open spec fn q() -> int {
    0xFFFFFFFFFFFFFFFFFFFFFFFFFFFFFFFFFFFFFFFFFFFFFFFFFFFFFFFEFFFFFC2Fint
}

/// The multiplicative generator of the field, a fixed system constant
/// used for subgroup and root-of-unity derivation downstream.
pub const Q_GENERATOR: u64 = 2;

/// 2^64, the limb radix.
pub open spec fn b64() -> int {
    0x10000000000000000int
}

/// 2^128.
pub open spec fn b128() -> int {
    0x100000000000000000000000000000000int
}

/// 2^192.
pub open spec fn b192() -> int {
    0x1000000000000000000000000000000000000000000000000int
}

/// 2^256.
pub open spec fn b256() -> int {
    0x10000000000000000000000000000000000000000000000000000000000000000int
}

/// Addition modulo Q, on canonical residues.
pub open spec fn fq_add(a: int, b: int) -> int {
    (a + b) % q()
}

/// Multiplication modulo Q, on canonical residues.
pub open spec fn fq_mul(a: int, b: int) -> int {
    (a * b) % q()
}

/// Negation modulo Q, on canonical residues.
pub open spec fn fq_neg(a: int) -> int {
    (q() - a) % q()
}

/// Subtraction modulo Q, on canonical residues.
pub open spec fn fq_sub(a: int, b: int) -> int {
    (a + q() - b) % q()
}

/// Doubling modulo Q, on canonical residues.
pub open spec fn fq_double(a: int) -> int {
    (2 * a) % q()
}

/// Squaring modulo Q, on canonical residues.
pub open spec fn fq_square(a: int) -> int {
    (a * a) % q()
}

/// The multiplicative inverse modulo Q, defined through Fermat
/// exponentiation: a^(Q-2) mod Q. For a = 0 this yields 0.
pub open spec fn fq_inv(a: int) -> int {
    pow(a, (q() - 2) as nat) % q()
}

/// Replacing both summands of a product-sum by their residues does not
/// change the residue of the whole.
proof fn lemma_mod_add_mul_noop(a: int, s: int, l: int, m: int)
    requires
        m > 0,
    ensures
        (a % m + (s % m) * l) % m == (a + s * l) % m,
{
    lemma_add_mod_noop_right(a % m, (s % m) * l, m);
    lemma_mul_mod_noop_left(s, l, m);
    lemma_add_mod_noop(a, s * l, m);
}

/// Addition in the native field is commutative.
pub proof fn lemma_fq_add_comm(a: int, b: int)
    ensures
        fq_add(a, b) == fq_add(b, a),
{
}

/// Multiplication in the native field is commutative.
pub proof fn lemma_fq_mul_comm(a: int, b: int)
    ensures
        fq_mul(a, b) == fq_mul(b, a),
{
}

/// Multiplication distributes over addition in the native field.
pub proof fn lemma_fq_mul_distributes(a: int, b: int, c: int)
    ensures
        fq_mul(a, fq_add(b, c)) == fq_add(fq_mul(a, b), fq_mul(a, c)),
{
    lemma_mul_mod_noop_right(a, b + c, q());
    vstd::arithmetic::mul::lemma_mul_is_distributive_add(a, b, c);
    lemma_add_mod_noop(a * b, a * c, q());
}

/// The additive identity is neutral on canonical residues.
pub proof fn lemma_fq_add_zero(a: int)
    requires
        0 <= a < q(),
    ensures
        fq_add(a, 0) == a,
{
    lemma_small_mod(a as nat, q() as nat);
}

/// The multiplicative identity is neutral on canonical residues.
pub proof fn lemma_fq_mul_one(a: int)
    requires
        0 <= a < q(),
    ensures
        fq_mul(a, 1) == a,
{
    lemma_small_mod(a as nat, q() as nat);
}

/// A canonical residue and its negation sum to the additive identity.
pub proof fn lemma_fq_add_neg(a: int)
    requires
        0 <= a < q(),
    ensures
        fq_add(a, fq_neg(a)) == 0,
{
    if a == 0 {
        vstd::arithmetic::div_mod::lemma_mod_self_0(q());
        lemma_small_mod(0, q() as nat);
    } else {
        lemma_small_mod((q() - a) as nat, q() as nat);
        vstd::arithmetic::div_mod::lemma_mod_self_0(q());
    }
}

/// An element of the native field, as four little-endian 64-bit limbs.
#[derive(Clone, Copy, Debug, PartialEq, Eq, Structural, Hash)]
pub struct Fq {
    pub l0: u64,
    pub l1: u64,
    pub l2: u64,
    pub l3: u64,
}

impl Fq {
    /// The integer denoted by the four limbs.
    pub open spec fn as_nat(self) -> int {
        self.l0 + self.l1 * 0x10000000000000000int + self.l2
            * 0x100000000000000000000000000000000int + self.l3
            * 0x1000000000000000000000000000000000000000000000000int
    }

    /// The stored representation always denotes a canonical residue.
    pub open spec fn wf(self) -> bool {
        self.as_nat() < q()
    }

    /// The additive identity.
    pub fn zero() -> (r: Self)
        ensures
            r.wf(),
            r.as_nat() == 0,
    {
        Fq { l0: 0, l1: 0, l2: 0, l3: 0 }
    }

    /// The multiplicative identity.
    pub fn one() -> (r: Self)
        ensures
            r.wf(),
            r.as_nat() == 1,
    {
        Fq { l0: 1, l1: 0, l2: 0, l3: 0 }
    }

    /// Lifts a machine word into the field.
    pub fn from_u64(v: u64) -> (r: Self)
        ensures
            r.wf(),
            r.as_nat() == v as int,
    {
        Fq { l0: v, l1: 0, l2: 0, l3: 0 }
    }

    /// Deserializes four little-endian limbs; succeeds exactly when they
    /// denote a canonical residue.
    pub fn from_limbs(l0: u64, l1: u64, l2: u64, l3: u64) -> (r: Option<Self>)
        ensures
            match r {
                Some(v) => {
                    &&& v.wf()
                    &&& v == (Fq { l0, l1, l2, l3 })
                    &&& v.as_nat() < q()
                },
                None => (Fq { l0, l1, l2, l3 }).as_nat() >= q(),
            },
    {
        let candidate = Fq { l0, l1, l2, l3 };
        if candidate.geq_q() {
            None
        } else {
            Some(candidate)
        }
    }

    /// Serializes the canonical residue as four little-endian limbs.
    pub fn to_limbs(&self) -> (r: (u64, u64, u64, u64))
        ensures
            r == (self.l0, self.l1, self.l2, self.l3),
    {
        (self.l0, self.l1, self.l2, self.l3)
    }

    /// Whether this is the additive identity.
    pub fn is_zero(&self) -> (r: bool)
        ensures
            r == (self.as_nat() == 0),
    {
        self.l0 == 0 && self.l1 == 0 && self.l2 == 0 && self.l3 == 0
    }

    /// Whether the raw limbs denote a value at or above the modulus.
    fn geq_q(&self) -> (r: bool)
        ensures
            r == (self.as_nat() >= q()),
    {
        proof {
            if self.l3 < 0xFFFF_FFFF_FFFF_FFFF || self.l2 < 0xFFFF_FFFF_FFFF_FFFF || self.l1
                < 0xFFFF_FFFF_FFFF_FFFF {
                assert(self.as_nat() < q());
            }
        }
        self.l3 == 0xFFFF_FFFF_FFFF_FFFF && self.l2 == 0xFFFF_FFFF_FFFF_FFFF && self.l1
            == 0xFFFF_FFFF_FFFF_FFFF && self.l0 >= Q_LIMB0
    }

    /// Subtracts the modulus once from a value known to lie in [Q, 2Q),
    /// given as four limbs and a radix-2^256 carry.
    fn reduce_once(s0: u64, s1: u64, s2: u64, s3: u64, carry: u64) -> (r: Self)
        requires
            carry <= 1,
            (Fq { l0: s0, l1: s1, l2: s2, l3: s3 }).as_nat() + carry * b256() >= q(),
            (Fq { l0: s0, l1: s1, l2: s2, l3: s3 }).as_nat() + carry * b256() < 2 * q(),
        ensures
            r.wf(),
            r.as_nat() == (Fq { l0: s0, l1: s1, l2: s2, l3: s3 }).as_nat() + carry * b256()
                - q(),
    {
        let t0: u128 = s0 as u128 + 0x10000000000000000u128 - Q_LIMB0 as u128;
        let r0: u64 = (t0 % 0x10000000000000000u128) as u64;
        let nb0: u64 = 1 - (t0 / 0x10000000000000000u128) as u64;
        let t1: u128 = s1 as u128 + 0x10000000000000000u128 - 0xFFFF_FFFF_FFFF_FFFFu128
            - nb0 as u128;
        let r1: u64 = (t1 % 0x10000000000000000u128) as u64;
        let nb1: u64 = 1 - (t1 / 0x10000000000000000u128) as u64;
        let t2: u128 = s2 as u128 + 0x10000000000000000u128 - 0xFFFF_FFFF_FFFF_FFFFu128
            - nb1 as u128;
        let r2: u64 = (t2 % 0x10000000000000000u128) as u64;
        let nb2: u64 = 1 - (t2 / 0x10000000000000000u128) as u64;
        let t3: u128 = s3 as u128 + 0x10000000000000000u128 - 0xFFFF_FFFF_FFFF_FFFFu128
            - nb2 as u128;
        let r3: u64 = (t3 % 0x10000000000000000u128) as u64;
        let nb3: u64 = 1 - (t3 / 0x10000000000000000u128) as u64;
        proof {
            lemma_fundamental_div_mod(t0 as int, b64());
            lemma_fundamental_div_mod(t1 as int, b64());
            lemma_fundamental_div_mod(t2 as int, b64());
            lemma_fundamental_div_mod(t3 as int, b64());
            let s = (Fq { l0: s0, l1: s1, l2: s2, l3: s3 }).as_nat();
            let rv = (Fq { l0: r0, l1: r1, l2: r2, l3: r3 }).as_nat();
            // limb-wise: s_i - q_i - borrow_in == r_i - borrow_out * 2^64,
            // so summing with radix weights gives s - Q == rv - nb3 * 2^256
            assert(s - q() == rv - nb3 * b256());
            assert(rv < b256());
            assert(s + carry * b256() - q() < q());
            assert(carry == nb3);
        }
        Fq { l0: r0, l1: r1, l2: r2, l3: r3 }
    }

    /// Field addition.
    pub fn add(&self, other: &Fq) -> (r: Fq)
        requires
            self.wf(),
            other.wf(),
        ensures
            r.wf(),
            r.as_nat() == fq_add(self.as_nat(), other.as_nat()),
    {
        let t0: u128 = self.l0 as u128 + other.l0 as u128;
        let s0: u64 = (t0 % 0x10000000000000000u128) as u64;
        let c0: u64 = (t0 / 0x10000000000000000u128) as u64;
        let t1: u128 = self.l1 as u128 + other.l1 as u128 + c0 as u128;
        let s1: u64 = (t1 % 0x10000000000000000u128) as u64;
        let c1: u64 = (t1 / 0x10000000000000000u128) as u64;
        let t2: u128 = self.l2 as u128 + other.l2 as u128 + c1 as u128;
        let s2: u64 = (t2 % 0x10000000000000000u128) as u64;
        let c2: u64 = (t2 / 0x10000000000000000u128) as u64;
        let t3: u128 = self.l3 as u128 + other.l3 as u128 + c2 as u128;
        let s3: u64 = (t3 % 0x10000000000000000u128) as u64;
        let c3: u64 = (t3 / 0x10000000000000000u128) as u64;
        proof {
            lemma_fundamental_div_mod(t0 as int, b64());
            lemma_fundamental_div_mod(t1 as int, b64());
            lemma_fundamental_div_mod(t2 as int, b64());
            lemma_fundamental_div_mod(t3 as int, b64());
            let sum = self.as_nat() + other.as_nat();
            assert(sum == (Fq { l0: s0, l1: s1, l2: s2, l3: s3 }).as_nat() + c3 * b256());
        }
        let partial = Fq { l0: s0, l1: s1, l2: s2, l3: s3 };
        let ghost sum = self.as_nat() + other.as_nat();
        if c3 == 1 || partial.geq_q() {
            let r = Fq::reduce_once(s0, s1, s2, s3, c3);
            proof {
                // the sum lies in [Q, 2Q), so reducing once is the remainder
                assert(sum % q() == sum - q()) by {
                    vstd::arithmetic::div_mod::lemma_mod_sub_multiples_vanish(sum, q());
                    lemma_small_mod((sum - q()) as nat, q() as nat);
                }
            }
            r
        } else {
            proof {
                lemma_small_mod(sum as nat, q() as nat);
            }
            partial
        }
    }

    /// Field negation.
    pub fn neg(&self) -> (r: Fq)
        requires
            self.wf(),
        ensures
            r.wf(),
            r.as_nat() == fq_neg(self.as_nat()),
    {
        if self.is_zero() {
            proof {
                assert(q() % q() == 0) by {
                    vstd::arithmetic::div_mod::lemma_mod_self_0(q());
                }
            }
            Fq::zero()
        } else {
            let t0: u128 = Q_LIMB0 as u128 + 0x10000000000000000u128 - self.l0 as u128;
            let r0: u64 = (t0 % 0x10000000000000000u128) as u64;
            let nb0: u64 = 1 - (t0 / 0x10000000000000000u128) as u64;
            let t1: u128 = 0xFFFF_FFFF_FFFF_FFFFu128 + 0x10000000000000000u128 - self.l1 as u128
                - nb0 as u128;
            let r1: u64 = (t1 % 0x10000000000000000u128) as u64;
            let nb1: u64 = 1 - (t1 / 0x10000000000000000u128) as u64;
            let t2: u128 = 0xFFFF_FFFF_FFFF_FFFFu128 + 0x10000000000000000u128 - self.l2 as u128
                - nb1 as u128;
            let r2: u64 = (t2 % 0x10000000000000000u128) as u64;
            let nb2: u64 = 1 - (t2 / 0x10000000000000000u128) as u64;
            let t3: u128 = 0xFFFF_FFFF_FFFF_FFFFu128 + 0x10000000000000000u128 - self.l3 as u128
                - nb2 as u128;
            let r3: u64 = (t3 % 0x10000000000000000u128) as u64;
            let nb3: u64 = 1 - (t3 / 0x10000000000000000u128) as u64;
            let r = Fq { l0: r0, l1: r1, l2: r2, l3: r3 };
            proof {
                lemma_fundamental_div_mod(t0 as int, b64());
                lemma_fundamental_div_mod(t1 as int, b64());
                lemma_fundamental_div_mod(t2 as int, b64());
                lemma_fundamental_div_mod(t3 as int, b64());
                // q - a == rv - borrow * 2^256, and both sides lie in (0, 2^256)
                assert(q() - self.as_nat() == r.as_nat() - nb3 * b256());
                assert(r.as_nat() < b256());
                assert(nb3 == 0);
                lemma_small_mod((q() - self.as_nat()) as nat, q() as nat);
            }
            r
        }
    }

    /// Field subtraction, as addition of the negated operand.
    pub fn sub(&self, other: &Fq) -> (r: Fq)
        requires
            self.wf(),
            other.wf(),
        ensures
            r.wf(),
            r.as_nat() == fq_sub(self.as_nat(), other.as_nat()),
    {
        let n = other.neg();
        let r = self.add(&n);
        proof {
            lemma_add_mod_noop_right(self.as_nat(), q() - other.as_nat(), q());
        }
        r
    }

    /// Folds one little-endian limb of a factor into the accumulator,
    /// scanning its bits from the least significant end, and advances the
    /// shifted operand by one radix step.
    fn mul_limb(acc: &mut Fq, sh: &mut Fq, w: u64)
        requires
            old(acc).wf(),
            old(sh).wf(),
        ensures
            final(acc).wf(),
            final(sh).wf(),
            final(acc).as_nat() == (old(acc).as_nat() + old(sh).as_nat() * w) % q(),
            final(sh).as_nat() == (old(sh).as_nat() * b64()) % q(),
    {
        let mut ww: u64 = w;
        let mut j: u64 = 0;
        proof {
            lemma2_to64();
            lemma_small_mod(old(acc).as_nat() as nat, q() as nat);
        }
        while j < 64
            invariant
                acc.wf(),
                sh.wf(),
                j <= 64,
                ww < pow2((64 - j) as nat),
                (acc.as_nat() + sh.as_nat() * ww) % q() == (old(acc).as_nat() + old(
                    sh,
                ).as_nat() * w) % q(),
                sh.as_nat() == (old(sh).as_nat() * pow2(j as nat)) % q(),
            decreases 64 - j,
        {
            let ghost acc0 = acc.as_nat();
            let ghost sh0 = sh.as_nat();
            let ghost ww0 = ww as int;
            let bit: u64 = ww % 2;
            if bit == 1 {
                let a = *acc;
                *acc = a.add(&*sh);
            }
            let s = *sh;
            *sh = s.add(&s);
            ww = ww / 2;
            j = j + 1;
            proof {
                let ww1 = ww as int;
                assert(ww0 == 2 * ww1 + bit);
                // the consumed bit moves from the pending factor into the sum
                let x = acc0 + sh0 * bit;
                if bit == 1 {
                    assert(acc.as_nat() == x % q());
                } else {
                    lemma_small_mod(acc0 as nat, q() as nat);
                    assert(acc.as_nat() == x % q());
                }
                assert(sh.as_nat() == (2 * sh0) % q());
                lemma_mul_mod_noop_left(2 * sh0, ww1, q());
                lemma_add_mod_noop_right(x % q(), ((2 * sh0) % q()) * ww1, q());
                lemma_add_mod_noop_right(x % q(), (2 * sh0) * ww1, q());
                lemma_add_mod_noop(x, 2 * sh0 * ww1, q());
                assert((acc.as_nat() + sh.as_nat() * ww1) % q() == (x + 2 * sh0 * ww1) % q());
                assert(x + 2 * sh0 * ww1 == acc0 + sh0 * ww0) by (nonlinear_arith)
                    requires
                        x == acc0 + sh0 * bit,
                        ww0 == 2 * ww1 + bit,
                ;
                // the shifted operand gains one factor of two
                lemma_mul_mod_noop_right(2, old(sh).as_nat() * pow2((j - 1) as nat), q());
                lemma_pow2_unfold(j as nat);
                let shv = old(sh).as_nat();
                assert(2 * (shv * pow2((j - 1) as nat)) == shv * pow2(j as nat))
                    by (nonlinear_arith)
                    requires
                        pow2(j as nat) == 2 * pow2((j - 1) as nat),
                ;
                // the pending factor halves strictly under its bound
                lemma_pow2_unfold((64 - j + 1) as nat);
            }
        }
        proof {
            assert(ww == 0);
            lemma2_to64();
            lemma_small_mod(acc.as_nat() as nat, q() as nat);
            assert(sh.as_nat() == (old(sh).as_nat() * b64()) % q());
        }
    }

    /// Field multiplication.
    pub fn mul(&self, other: &Fq) -> (r: Fq)
        requires
            self.wf(),
            other.wf(),
        ensures
            r.wf(),
            r.as_nat() == fq_mul(self.as_nat(), other.as_nat()),
    {
        let mut acc = Fq::zero();
        let mut sh = *self;
        let ghost a = self.as_nat();
        let ghost b = other.as_nat();
        Fq::mul_limb(&mut acc, &mut sh, other.l0);
        proof {
            lemma_small_mod(a as nat, q() as nat);
        }
        Fq::mul_limb(&mut acc, &mut sh, other.l1);
        proof {
            // acc, sh are residues of the exact partial sum and shift
            lemma_mod_add_mul_noop(a * other.l0, a * b64(), other.l1 as int, q());
            lemma_mul_mod_noop_left(a * b64(), b64(), q());
        }
        Fq::mul_limb(&mut acc, &mut sh, other.l2);
        proof {
            lemma_mod_add_mul_noop(
                a * other.l0 + (a * b64()) * other.l1,
                a * b64() * b64(),
                other.l2 as int,
                q(),
            );
            lemma_mul_mod_noop_left(a * b64() * b64(), b64(), q());
        }
        Fq::mul_limb(&mut acc, &mut sh, other.l3);
        proof {
            lemma_mod_add_mul_noop(
                a * other.l0 + (a * b64()) * other.l1 + (a * b64() * b64()) * other.l2,
                a * b64() * b64() * b64(),
                other.l3 as int,
                q(),
            );
            assert(a * other.l0 + (a * b64()) * other.l1 + (a * b64() * b64()) * other.l2 + (a
                * b64() * b64() * b64()) * other.l3 == a * b) by (nonlinear_arith)
                requires
                    b == other.l0 + other.l1 * b64() + other.l2 * (b64() * b64()) + other.l3 * (
                    b64() * b64() * b64()),
            ;
        }
        acc
    }

    /// Raises the base to one little-endian limb of the exponent,
    /// multiplying into the accumulator, and advances the base by one
    /// radix step of squarings.
    fn pow_limb(r: &mut Fq, base: &mut Fq, w: u64)
        requires
            old(r).wf(),
            old(base).wf(),
        ensures
            final(r).wf(),
            final(base).wf(),
            final(r).as_nat() == (old(r).as_nat() * pow(old(base).as_nat(), w as nat)) % q(),
            final(base).as_nat() == pow(old(base).as_nat(), pow2(64)) % q(),
    {
        let mut ww: u64 = w;
        let mut j: u64 = 0;
        proof {
            lemma2_to64();
            lemma_pow0(old(base).as_nat());
            lemma_pow1(old(base).as_nat());
            lemma_small_mod(old(base).as_nat() as nat, q() as nat);
            lemma_small_mod(old(r).as_nat() as nat, q() as nat);
        }
        while j < 64
            invariant
                r.wf(),
                base.wf(),
                j <= 64,
                ww < pow2((64 - j) as nat),
                (r.as_nat() * pow(base.as_nat(), ww as nat)) % q() == (old(r).as_nat() * pow(
                    old(base).as_nat(),
                    w as nat,
                )) % q(),
                base.as_nat() == pow(old(base).as_nat(), pow2(j as nat)) % q(),
            decreases 64 - j,
        {
            let ghost r0 = r.as_nat();
            let ghost b0 = base.as_nat();
            let ghost w0 = ww as nat;
            let bit: u64 = ww % 2;
            if bit == 1 {
                let c = *r;
                *r = c.mul(&*base);
            }
            let s = *base;
            *base = s.mul(&s);
            ww = ww / 2;
            j = j + 1;
            proof {
                let w1 = ww as nat;
                assert(w0 == 2 * w1 + bit);
                lemma_square_is_pow2(b0);
                lemma_pow_multiplies(b0, 2, w1);
                lemma_pow_mod_noop(b0 * b0, w1, q());
                assert(pow(base.as_nat(), w1) % q() == pow(b0, 2 * w1) % q()) by {
                    lemma_pow_mod_noop(pow(b0, 2), w1, q());
                }
                lemma_pow_adds(b0, 2 * w1, bit as nat);
                let x = if bit == 1 { r0 * b0 } else { r0 };
                if bit == 1 {
                    lemma_pow1(b0);
                } else {
                    lemma_pow0(b0);
                    lemma_small_mod(r0 as nat, q() as nat);
                }
                assert(r.as_nat() == x % q());
                // fold both residues back under a single modulus
                lemma_mul_mod_noop_right(x % q(), pow(base.as_nat(), w1), q());
                lemma_mul_mod_noop_right(x % q(), pow(b0, 2 * w1), q());
                lemma_mul_mod_noop_general(x, pow(base.as_nat(), w1), q());
                lemma_mul_mod_noop_general(x, pow(b0, 2 * w1), q());
                assert(x * pow(b0, 2 * w1) == r0 * pow(b0, w0)) by (nonlinear_arith)
                    requires
                        x == if bit == 1 { r0 * b0 } else { r0 },
                        pow(b0, w0) == pow(b0, 2 * w1) * pow(b0, bit as nat),
                        pow(b0, bit as nat) == if bit == 1 { b0 } else { 1int },
                ;
                lemma_mul_mod_noop_general(r0, pow(b0, w0), q());
                lemma_small_mod(r0 as nat, q() as nat);
                // the base gains one squaring step
                lemma_pow_adds(old(base).as_nat(), pow2((j - 1) as nat), pow2((j - 1) as nat));
                lemma_pow2_unfold(j as nat);
                assert(base.as_nat() == pow(old(base).as_nat(), pow2(j as nat)) % q()) by {
                    lemma_mul_mod_noop_general(
                        pow(old(base).as_nat(), pow2((j - 1) as nat)),
                        pow(old(base).as_nat(), pow2((j - 1) as nat)),
                        q(),
                    );
                    assert(pow2((j - 1) as nat) + pow2((j - 1) as nat) == pow2(j as nat));
                }
                lemma_pow2_unfold((64 - j + 1) as nat);
            }
        }
        proof {
            assert(ww == 0);
            lemma_pow0(base.as_nat());
            lemma_small_mod(r.as_nat() as nat, q() as nat);
        }
    }

    /// Modular exponentiation by a 256-bit exponent given as four
    /// little-endian limbs.
    pub fn pow_limbs(&self, e0: u64, e1: u64, e2: u64, e3: u64) -> (r: Fq)
        requires
            self.wf(),
        ensures
            r.wf(),
            r.as_nat() == pow(
                self.as_nat(),
                (e0 + e1 * b64() + e2 * b128() + e3 * b192()) as nat,
            ) % q(),
    {
        let mut acc = Fq::one();
        let mut base = *self;
        let ghost a = self.as_nat();
        Fq::pow_limb(&mut acc, &mut base, e0);
        proof {
            lemma2_to64();
            vstd::arithmetic::power2::lemma_pow2_adds(64, 64);
            vstd::arithmetic::power2::lemma_pow2_adds(128, 64);
            lemma_pow1(a);
            lemma_pow_mod_noop(a, pow2(64), q());
            assert(base.as_nat() == pow(a, pow2(64 * 1)) % q());
        }
        let ghost b1 = base.as_nat();
        Fq::pow_limb(&mut acc, &mut base, e1);
        proof {
            Self::lemma_pow_stage(a, acc.as_nat(), 1, e0 as nat, e1 as nat);
            Self::lemma_base_stage(a, b1, base.as_nat(), 1);
        }
        let ghost b2 = base.as_nat();
        Fq::pow_limb(&mut acc, &mut base, e2);
        proof {
            Self::lemma_pow_stage(a, acc.as_nat(), 2, (e0 + e1 * b64()) as nat, e2 as nat);
            Self::lemma_base_stage(a, b2, base.as_nat(), 2);
        }
        Fq::pow_limb(&mut acc, &mut base, e3);
        proof {
            Self::lemma_pow_stage(
                a,
                acc.as_nat(),
                3,
                (e0 + e1 * b64() + e2 * b128()) as nat,
                e3 as nat,
            );
        }
        acc
    }

    /// One chaining step of the squared base: squaring through another
    /// radix step composes the exponents of two.
    proof fn lemma_base_stage(a: int, bk: int, bk1: int, k: nat)
        requires
            bk == pow(a, pow2(64 * k)) % q(),
            bk1 == pow(bk, pow2(64)) % q(),
        ensures
            bk1 == pow(a, pow2(64 * (k + 1))) % q(),
    {
        lemma_pow_mod_noop(pow(a, pow2(64 * k)), pow2(64), q());
        lemma_pow_multiplies(a, pow2(64 * k), pow2(64));
        vstd::arithmetic::power2::lemma_pow2_adds(64 * k, 64);
        assert(pow2(64 * k) * pow2(64) == pow2(64 * k + 64));
    }

    /// One chaining step of limb-wise exponentiation: if the accumulator
    /// holds a^d so far and the base has been squared through k radix
    /// steps, folding the next limb extends the exponent by w * 2^(64 k).
    proof fn lemma_pow_stage(a: int, accv: int, k: nat, d: nat, w: nat)
        requires
            k >= 1,
            accv == ((pow(a, d) % q()) * pow(pow(a, pow2(64 * k)) % q(), w)) % q(),
        ensures
            accv == pow(a, (d + w * pow2(64 * k)) as nat) % q(),
    {
        lemma_pow_mod_noop(pow(a, pow2(64 * k)), w, q());
        lemma_pow_multiplies(a, pow2(64 * k), w);
        lemma_mul_mod_noop_right(pow(a, d) % q(), pow(pow(a, pow2(64 * k)) % q(), w), q());
        lemma_mul_mod_noop_right(pow(a, d) % q(), pow(a, pow2(64 * k) * w), q());
        lemma_mul_mod_noop_general(pow(a, d), pow(a, pow2(64 * k) * w), q());
        lemma_pow_adds(a, d, pow2(64 * k) * w);
        assert(pow2(64 * k) * w == w * pow2(64 * k)) by (nonlinear_arith);
    }

    /// The multiplicative inverse, through Fermat exponentiation by
    /// Q - 2. Inversion of zero fails: zero has no multiplicative inverse.
    pub fn invert(&self) -> (r: Result<Fq, crate::FieldError>)
        requires
            self.wf(),
        ensures
            match r {
                Ok(v) => self.as_nat() != 0 && v.wf() && v.as_nat() == fq_inv(self.as_nat()),
                Err(e) => self.as_nat() == 0 && e == crate::FieldError::DivisionByZero,
            },
    {
        if self.is_zero() {
            Err(crate::FieldError::DivisionByZero)
        } else {
            let r = self.pow_limbs(
                0xFFFF_FFFE_FFFF_FC2D,
                0xFFFF_FFFF_FFFF_FFFF,
                0xFFFF_FFFF_FFFF_FFFF,
                0xFFFF_FFFF_FFFF_FFFF,
            );
            proof {
                assert(0xFFFF_FFFE_FFFF_FC2D + 0xFFFF_FFFF_FFFF_FFFF * b64()
                    + 0xFFFF_FFFF_FFFF_FFFF * b128() + 0xFFFF_FFFF_FFFF_FFFF * b192() == q()
                    - 2);
            }
            Ok(r)
        }
    }
}

impl crate::capability::FieldCapability for Fq {
    type Base = Fq;

    type Context = crate::capability::NoContext;

    open spec fn wf(self) -> bool {
        self.as_nat() < q()
    }

    open spec fn is_cheap(self) -> bool {
        true
    }

    open spec fn ctx_wf(ctx: crate::capability::NoContext) -> bool {
        true
    }

    open spec fn ctx_ready(ctx: crate::capability::NoContext) -> bool {
        true
    }

    open spec fn ctx_evolves(
        pre: crate::capability::NoContext,
        post: crate::capability::NoContext,
    ) -> bool {
        true
    }

    open spec fn same_value(a: Fq, b: Fq) -> bool {
        a.as_nat() == b.as_nat()
    }

    open spec fn zero_val(self) -> bool {
        self.as_nat() == 0
    }

    open spec fn one_val(self) -> bool {
        self.as_nat() == 1
    }

    open spec fn minus_one_val(self) -> bool {
        self.as_nat() == q() - 1
    }

    open spec fn sum_of(r: Fq, a: Fq, b: Fq) -> bool {
        r.as_nat() == fq_add(a.as_nat(), b.as_nat())
    }

    open spec fn diff_of(r: Fq, a: Fq, b: Fq) -> bool {
        r.as_nat() == fq_sub(a.as_nat(), b.as_nat())
    }

    open spec fn prod_of(r: Fq, a: Fq, b: Fq) -> bool {
        r.as_nat() == fq_mul(a.as_nat(), b.as_nat())
    }

    open spec fn dbl_of(r: Fq, a: Fq) -> bool {
        r.as_nat() == fq_double(a.as_nat())
    }

    open spec fn sq_of(r: Fq, a: Fq) -> bool {
        r.as_nat() == fq_square(a.as_nat())
    }

    open spec fn neg_of(r: Fq, a: Fq) -> bool {
        r.as_nat() == fq_neg(a.as_nat())
    }

    open spec fn inv_of(r: Fq, a: Fq) -> bool {
        r.as_nat() == fq_inv(a.as_nat())
    }

    open spec fn lift_of(r: Fq, v: Fq) -> bool {
        r.as_nat() == v.as_nat()
    }

    open spec fn base_wf(v: Fq) -> bool {
        v.as_nat() < q()
    }

    fn zero(_ctx: &mut crate::capability::NoContext) -> Fq {
        Fq::zero()
    }

    fn one(_ctx: &mut crate::capability::NoContext) -> Fq {
        Fq::one()
    }

    fn minus_one(_ctx: &mut crate::capability::NoContext) -> Fq {
        let one = Fq::one();
        let r = one.neg();
        proof {
            lemma_small_mod((q() - 1) as nat, q() as nat);
        }
        r
    }

    fn constant(value: Fq, _ctx: &mut crate::capability::NoContext) -> Fq {
        value
    }

    fn add_assign(&mut self, other: &Fq, _ctx: &mut crate::capability::NoContext) -> &mut Fq {
        let s = *self;
        *self = s.add(other);
        self
    }

    fn sub_assign(&mut self, other: &Fq, _ctx: &mut crate::capability::NoContext) -> &mut Fq {
        let s = *self;
        *self = s.sub(other);
        self
    }

    fn mul_assign(&mut self, other: &Fq, _ctx: &mut crate::capability::NoContext) -> &mut Fq {
        let s = *self;
        *self = s.mul(other);
        self
    }

    fn square(&mut self, _ctx: &mut crate::capability::NoContext) -> &mut Fq {
        let s = *self;
        *self = s.mul(&s);
        self
    }

    fn negate(&mut self, _ctx: &mut crate::capability::NoContext) -> &mut Fq {
        let s = *self;
        *self = s.neg();
        self
    }

    fn double(&mut self, _ctx: &mut crate::capability::NoContext) -> &mut Fq {
        let s = *self;
        *self = s.add(&s);
        self
    }

    fn inverse(&self, _ctx: &mut crate::capability::NoContext) -> Fq {
        let r = self.invert();
        r.unwrap()
    }

    proof fn law_double_is_self_sum(d: Fq, s: Fq, x: Fq) {
    }

    proof fn law_square_is_self_prod(sq: Fq, p: Fq, x: Fq) {
    }

    proof fn law_sub_is_add_neg(d: Fq, n: Fq, s: Fq, a: Fq, b: Fq) {
        lemma_add_mod_noop_right(a.as_nat(), q() - b.as_nat(), q());
    }

    proof fn law_neg_involutive(n: Fq, m: Fq, x: Fq) {
        if x.as_nat() == 0 {
            vstd::arithmetic::div_mod::lemma_mod_self_0(q());
        } else {
            lemma_small_mod((q() - x.as_nat()) as nat, q() as nat);
            lemma_small_mod(x.as_nat() as nat, q() as nat);
        }
    }

    proof fn law_sum_respects_value(r1: Fq, a1: Fq, b1: Fq, r2: Fq, a2: Fq, b2: Fq) {
    }

    proof fn law_prod_respects_value(r1: Fq, a1: Fq, b1: Fq, r2: Fq, a2: Fq, b2: Fq) {
    }
}

} // verus!
