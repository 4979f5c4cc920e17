//! The mutable circuit-building session and the context-bound
//! representations of emulated field values.
//!
//! A [`Context`] models what the capability layer needs from a
//! constraint-system backend: witness slots are allocated and constraints
//! are emitted append-only, deterministically, as a side effect of
//! arithmetic; a fixed constant never consumes a witness slot. An
//! operation that the session cannot represent (its allocation limit is
//! reached) fails with [`crate::FieldError::ArithmeticUnsatisfiable`].

use vstd::prelude::*;
use crate::FieldError;
use crate::goldilocks::{
    ext_mul_c0, ext_mul_c1, ext_norm, gl_add, gl_inv, gl_mul, gl_neg, Goldilocks,
    GoldilocksExt2, GOLDILOCKS_MODULUS,
};

verus! {

/// A circuit-building session: an append-only accumulator of witness
/// allocations and emitted constraints, with a fixed allocation limit.
#[derive(Clone, Copy, Debug, PartialEq, Eq, Structural)]
pub struct Context {
    /// The internal allocation limit of this session.
    pub witness_limit: u64,
    /// Witness slots allocated so far.
    pub witnesses: u64,
    /// Constraints emitted so far.
    pub constraints: u64,
}

impl Context {
    /// Allocation stays within the limit, and every constraint emitted so
    /// far came with a witness allocation.
    pub open spec fn wf(self) -> bool {
        self.witnesses <= self.witness_limit && self.constraints <= self.witnesses
    }

    /// Append-only evolution: the limit is fixed, and nothing already
    /// allocated or emitted is ever removed.
    pub open spec fn evolves_to(self, post: Context) -> bool {
        post.witness_limit == self.witness_limit && post.witnesses >= self.witnesses
            && post.constraints >= self.constraints
    }

    /// Whether `n` more witness slots fit in this session.
    pub open spec fn has_room(self, n: int) -> bool {
        self.witnesses + n <= self.witness_limit
    }

    /// Opens a fresh session with the given allocation limit.
    pub fn new(witness_limit: u64) -> (r: Context)
        ensures
            r.wf(),
            r.witness_limit == witness_limit,
            r.witnesses == 0,
            r.constraints == 0,
    {
        Context { witness_limit, witnesses: 0, constraints: 0 }
    }
}

/// A foreign base-field value bound to a session: the value it must
/// evaluate to, and whether it is a fixed constant (witness-free) or is
/// backed by a witness allocation.
#[derive(Clone, Copy, Debug, PartialEq, Eq, Structural, Hash)]
pub struct GoldilocksField {
    /// The canonical foreign-field value this handle evaluates to.
    pub value: Goldilocks,
    /// A fixed constant consumes no witness slot.
    pub is_constant: bool,
}

/// Witness slots one delegated operation on a pair of operands consumes:
/// combining two constants is free, anything else binds one fresh witness.
pub open spec fn pair_allocs(a: GoldilocksField, b: GoldilocksField) -> int {
    if a.is_constant && b.is_constant {
        0
    } else {
        1
    }
}

impl GoldilocksField {
    /// The represented value is a canonical residue.
    pub open spec fn wf(self) -> bool {
        self.value.wf()
    }

    /// The mathematical value this handle evaluates to.
    pub open spec fn val(self) -> int {
        self.value.value()
    }

    /// The additive identity, as a fixed constant.
    pub fn zero() -> (r: Self)
        ensures
            r.wf(),
            r.val() == 0,
            r.is_constant,
    {
        GoldilocksField { value: Goldilocks::zero(), is_constant: true }
    }

    /// The multiplicative identity, as a fixed constant.
    pub fn one() -> (r: Self)
        ensures
            r.wf(),
            r.val() == 1,
            r.is_constant,
    {
        GoldilocksField { value: Goldilocks::one(), is_constant: true }
    }

    /// The additive inverse of the multiplicative identity, as a fixed
    /// constant.
    pub fn minus_one() -> (r: Self)
        ensures
            r.wf(),
            r.val() == crate::goldilocks::gp() - 1,
            r.is_constant,
    {
        GoldilocksField { value: Goldilocks::minus_one(), is_constant: true }
    }

    /// Lifts a foreign-field value as a fixed constant: no witness slot is
    /// consumed, now or by later arithmetic with it alone.
    pub fn constant_from_field(value: Goldilocks) -> (r: Self)
        requires
            value.wf(),
        ensures
            r.wf(),
            r.val() == value.value(),
            r.is_constant,
    {
        GoldilocksField { value, is_constant: true }
    }

    /// Binds a fresh witness-backed value in the session.
    pub fn allocate(ctx: &mut Context, value: Goldilocks) -> (r: Result<Self, FieldError>)
        requires
            old(ctx).wf(),
            value.wf(),
        ensures
            final(ctx).wf(),
            old(ctx).evolves_to(*final(ctx)),
            match r {
                Ok(v) => {
                    &&& old(ctx).has_room(1)
                    &&& v.wf()
                    &&& !v.is_constant
                    &&& v.val() == value.value()
                    &&& final(ctx).witnesses == old(ctx).witnesses + 1
                    &&& final(ctx).constraints == old(ctx).constraints
                },
                Err(e) => {
                    &&& e == FieldError::ArithmeticUnsatisfiable
                    &&& !old(ctx).has_room(1)
                    &&& *final(ctx) == *old(ctx)
                },
            },
    {
        if ctx.witnesses < ctx.witness_limit {
            ctx.witnesses = ctx.witnesses + 1;
            Ok(GoldilocksField { value, is_constant: false })
        } else {
            Err(FieldError::ArithmeticUnsatisfiable)
        }
    }

    /// Delegated addition: computes the sum and, unless both operands are
    /// fixed constants, binds it to a fresh witness with one constraint.
    pub fn add(&self, ctx: &mut Context, other: &Self) -> (r: Result<Self, FieldError>)
        requires
            self.wf(),
            other.wf(),
            old(ctx).wf(),
        ensures
            final(ctx).wf(),
            old(ctx).evolves_to(*final(ctx)),
            r is Ok <==> pair_allocs(*self, *other) == 0 || old(ctx).has_room(1),
            match r {
                Ok(v) => {
                    &&& v.wf()
                    &&& v.val() == gl_add(self.val(), other.val())
                    &&& v.is_constant == (self.is_constant && other.is_constant)
                    &&& final(ctx).witnesses == old(ctx).witnesses + pair_allocs(*self, *other)
                    &&& final(ctx).constraints == old(ctx).constraints + pair_allocs(
                        *self,
                        *other,
                    )
                },
                Err(e) => {
                    &&& e == FieldError::ArithmeticUnsatisfiable
                    &&& *final(ctx) == *old(ctx)
                },
            },
    {
        let value = self.value.add(other.value);
        if self.is_constant && other.is_constant {
            Ok(GoldilocksField { value, is_constant: true })
        } else if ctx.witnesses < ctx.witness_limit {
            ctx.witnesses = ctx.witnesses + 1;
            ctx.constraints = ctx.constraints + 1;
            Ok(GoldilocksField { value, is_constant: false })
        } else {
            Err(FieldError::ArithmeticUnsatisfiable)
        }
    }

    /// Delegated multiplication: computes the product and, unless both
    /// operands are fixed constants, binds it to a fresh witness with one
    /// constraint.
    pub fn mul(&self, ctx: &mut Context, other: &Self) -> (r: Result<Self, FieldError>)
        requires
            self.wf(),
            other.wf(),
            old(ctx).wf(),
        ensures
            final(ctx).wf(),
            old(ctx).evolves_to(*final(ctx)),
            r is Ok <==> pair_allocs(*self, *other) == 0 || old(ctx).has_room(1),
            match r {
                Ok(v) => {
                    &&& v.wf()
                    &&& v.val() == gl_mul(self.val(), other.val())
                    &&& v.is_constant == (self.is_constant && other.is_constant)
                    &&& final(ctx).witnesses == old(ctx).witnesses + pair_allocs(*self, *other)
                    &&& final(ctx).constraints == old(ctx).constraints + pair_allocs(
                        *self,
                        *other,
                    )
                },
                Err(e) => {
                    &&& e == FieldError::ArithmeticUnsatisfiable
                    &&& *final(ctx) == *old(ctx)
                },
            },
    {
        let value = self.value.mul(other.value);
        if self.is_constant && other.is_constant {
            Ok(GoldilocksField { value, is_constant: true })
        } else if ctx.witnesses < ctx.witness_limit {
            ctx.witnesses = ctx.witnesses + 1;
            ctx.constraints = ctx.constraints + 1;
            Ok(GoldilocksField { value, is_constant: false })
        } else {
            Err(FieldError::ArithmeticUnsatisfiable)
        }
    }

    /// Delegated negation. Negation is a linear rewrite of the handle, so
    /// it is free: no witness, no constraint, and it cannot fail.
    pub fn negate(&self, ctx: &mut Context) -> (r: Result<Self, FieldError>)
        requires
            self.wf(),
            old(ctx).wf(),
        ensures
            *final(ctx) == *old(ctx),
            r is Ok,
            r matches Ok(v) ==> {
                &&& v.wf()
                &&& v.val() == gl_neg(self.val())
                &&& v.is_constant == self.is_constant
            },
    {
        Ok(GoldilocksField { value: self.value.neg(), is_constant: self.is_constant })
    }

    /// Delegated inversion. A constant is inverted in place (inverting the
    /// constant zero fails); a witness-backed value binds one fresh witness
    /// for the inverse with one constraint.
    pub fn inverse(&self, ctx: &mut Context) -> (r: Result<Self, FieldError>)
        requires
            self.wf(),
            old(ctx).wf(),
        ensures
            final(ctx).wf(),
            old(ctx).evolves_to(*final(ctx)),
            r is Ok <==> (if self.is_constant {
                self.val() != 0
            } else {
                old(ctx).has_room(1)
            }),
            match r {
                Ok(v) => {
                    &&& v.wf()
                    &&& v.val() == gl_inv(self.val())
                    &&& v.is_constant == self.is_constant
                    &&& (self.is_constant ==> *final(ctx) == *old(ctx))
                    &&& (!self.is_constant ==> final(ctx).witnesses == old(ctx).witnesses + 1
                        && final(ctx).constraints == old(ctx).constraints + 1)
                },
                Err(e) => {
                    &&& *final(ctx) == *old(ctx)
                    &&& (self.is_constant ==> e == FieldError::DivisionByZero && self.val()
                        == 0)
                    &&& (!self.is_constant ==> e == FieldError::ArithmeticUnsatisfiable)
                },
            },
    {
        if self.is_constant {
            if self.value.to_u64() == 0 {
                Err(FieldError::DivisionByZero)
            } else {
                let inv = self.value.pow_u64(GOLDILOCKS_MODULUS - 2);
                Ok(GoldilocksField { value: inv, is_constant: true })
            }
        } else if ctx.witnesses < ctx.witness_limit {
            ctx.witnesses = ctx.witnesses + 1;
            ctx.constraints = ctx.constraints + 1;
            let inv = self.value.pow_u64(GOLDILOCKS_MODULUS - 2);
            Ok(GoldilocksField { value: inv, is_constant: false })
        } else {
            Err(FieldError::ArithmeticUnsatisfiable)
        }
    }
}

/// A foreign extension-field value bound to a session, as two
/// base-field limbs: the scalar coefficient and the extension coefficient.
#[derive(Clone, Copy, Debug, PartialEq, Eq, Structural, Hash)]
pub struct GoldilocksFieldExt {
    /// Coefficient of 1.
    pub c0: GoldilocksField,
    /// Coefficient of the root of x^2 - 7.
    pub c1: GoldilocksField,
}

impl GoldilocksFieldExt {
    /// Both limbs represent canonical residues.
    pub open spec fn wf(self) -> bool {
        self.c0.wf() && self.c1.wf()
    }

    /// The scalar coefficient's value.
    pub open spec fn val0(self) -> int {
        self.c0.val()
    }

    /// The extension coefficient's value.
    pub open spec fn val1(self) -> int {
        self.c1.val()
    }

    /// Whether the whole element is a fixed constant.
    pub open spec fn is_constant(self) -> bool {
        self.c0.is_constant && self.c1.is_constant
    }

    /// The additive identity, as a fixed constant.
    pub fn zero() -> (r: Self)
        ensures
            r.wf(),
            r.val0() == 0,
            r.val1() == 0,
            r.is_constant(),
    {
        GoldilocksFieldExt { c0: GoldilocksField::zero(), c1: GoldilocksField::zero() }
    }

    /// The multiplicative identity, as a fixed constant.
    pub fn one() -> (r: Self)
        ensures
            r.wf(),
            r.val0() == 1,
            r.val1() == 0,
            r.is_constant(),
    {
        GoldilocksFieldExt { c0: GoldilocksField::one(), c1: GoldilocksField::zero() }
    }

    /// The additive inverse of the multiplicative identity, as a fixed
    /// constant.
    pub fn minus_one() -> (r: Self)
        ensures
            r.wf(),
            r.val0() == crate::goldilocks::gp() - 1,
            r.val1() == 0,
            r.is_constant(),
    {
        GoldilocksFieldExt { c0: GoldilocksField::minus_one(), c1: GoldilocksField::zero() }
    }

    /// Lifts a foreign base-field value as a fixed scalar constant.
    pub fn constant_from_field(value: Goldilocks) -> (r: Self)
        requires
            value.wf(),
        ensures
            r.wf(),
            r.val0() == value.value(),
            r.val1() == 0,
            r.is_constant(),
    {
        GoldilocksFieldExt {
            c0: GoldilocksField::constant_from_field(value),
            c1: GoldilocksField::zero(),
        }
    }

    /// Delegated addition, component-wise on the two limbs.
    pub fn add(&self, ctx: &mut Context, other: &Self) -> (r: Result<Self, FieldError>)
        requires
            self.wf(),
            other.wf(),
            old(ctx).wf(),
        ensures
            final(ctx).wf(),
            old(ctx).evolves_to(*final(ctx)),
            r is Ok <==> old(ctx).has_room(
                pair_allocs(self.c0, other.c0) + pair_allocs(self.c1, other.c1),
            ),
            match r {
                Ok(v) => {
                    &&& v.wf()
                    &&& v.val0() == gl_add(self.val0(), other.val0())
                    &&& v.val1() == gl_add(self.val1(), other.val1())
                    &&& v.is_constant() == (self.is_constant() && other.is_constant())
                    &&& final(ctx).witnesses == old(ctx).witnesses + pair_allocs(
                        self.c0,
                        other.c0,
                    ) + pair_allocs(self.c1, other.c1)
                    &&& final(ctx).constraints == old(ctx).constraints + pair_allocs(
                        self.c0,
                        other.c0,
                    ) + pair_allocs(self.c1, other.c1)
                },
                Err(e) => e == FieldError::ArithmeticUnsatisfiable,
            },
    {
        let r0 = match self.c0.add(ctx, &other.c0) {
            Ok(v) => v,
            Err(e) => {
                return Err(e);
            },
        };
        let r1 = match self.c1.add(ctx, &other.c1) {
            Ok(v) => v,
            Err(e) => {
                return Err(e);
            },
        };
        Ok(GoldilocksFieldExt { c0: r0, c1: r1 })
    }

    /// Delegated multiplication: the quadratic-extension product, with the
    /// cross term folded through the non-residue 7, bound as one delegated
    /// step. Unless both operands are fixed constants, the two result
    /// limbs each bind a fresh witness with one constraint.
    pub fn mul(&self, ctx: &mut Context, other: &Self) -> (r: Result<Self, FieldError>)
        requires
            self.wf(),
            other.wf(),
            old(ctx).wf(),
        ensures
            final(ctx).wf(),
            old(ctx).evolves_to(*final(ctx)),
            r is Ok <==> (self.is_constant() && other.is_constant()) || old(ctx).has_room(2),
            match r {
                Ok(v) => {
                    &&& v.wf()
                    &&& v.val0() == ext_mul_c0(
                        self.val0(),
                        self.val1(),
                        other.val0(),
                        other.val1(),
                    )
                    &&& v.val1() == ext_mul_c1(
                        self.val0(),
                        self.val1(),
                        other.val0(),
                        other.val1(),
                    )
                    &&& v.is_constant() == (self.is_constant() && other.is_constant())
                    &&& (self.is_constant() && other.is_constant() ==> *final(ctx) == *old(
                        ctx,
                    ))
                    &&& (!(self.is_constant() && other.is_constant()) ==> final(ctx).witnesses
                        == old(ctx).witnesses + 2 && final(ctx).constraints == old(
                        ctx,
                    ).constraints + 2)
                },
                Err(e) => {
                    &&& e == FieldError::ArithmeticUnsatisfiable
                    &&& *final(ctx) == *old(ctx)
                },
            },
    {
        let a = GoldilocksExt2::new(self.c0.value, self.c1.value);
        let b = GoldilocksExt2::new(other.c0.value, other.c1.value);
        let p = a.mul(b);
        let constant = self.c0.is_constant && self.c1.is_constant && other.c0.is_constant
            && other.c1.is_constant;
        if constant {
            Ok(
                GoldilocksFieldExt {
                    c0: GoldilocksField { value: p.c0, is_constant: true },
                    c1: GoldilocksField { value: p.c1, is_constant: true },
                },
            )
        } else if ctx.witness_limit - ctx.witnesses >= 2 {
            ctx.witnesses = ctx.witnesses + 2;
            ctx.constraints = ctx.constraints + 2;
            Ok(
                GoldilocksFieldExt {
                    c0: GoldilocksField { value: p.c0, is_constant: false },
                    c1: GoldilocksField { value: p.c1, is_constant: false },
                },
            )
        } else {
            Err(FieldError::ArithmeticUnsatisfiable)
        }
    }

    /// Delegated negation, component-wise; free and infallible, as for the
    /// base limbs.
    pub fn negate(&self, ctx: &mut Context) -> (r: Result<Self, FieldError>)
        requires
            self.wf(),
            old(ctx).wf(),
        ensures
            *final(ctx) == *old(ctx),
            r is Ok,
            r matches Ok(v) ==> {
                &&& v.wf()
                &&& v.val0() == gl_neg(self.val0())
                &&& v.val1() == gl_neg(self.val1())
                &&& v.is_constant() == self.is_constant()
            },
    {
        let r0 = match self.c0.negate(ctx) {
            Ok(v) => v,
            Err(e) => {
                return Err(e);
            },
        };
        let r1 = match self.c1.negate(ctx) {
            Ok(v) => v,
            Err(e) => {
                return Err(e);
            },
        };
        Ok(GoldilocksFieldExt { c0: r0, c1: r1 })
    }

    /// Delegated inversion: the conjugate divided by the norm. Inverting
    /// an element with vanishing norm fails (only the zero element has a
    /// vanishing norm, because 7 is not a square in the base field); a
    /// witness-backed element binds two fresh witnesses with two
    /// constraints.
    pub fn inverse(&self, ctx: &mut Context) -> (r: Result<Self, FieldError>)
        requires
            self.wf(),
            old(ctx).wf(),
        ensures
            final(ctx).wf(),
            old(ctx).evolves_to(*final(ctx)),
            r is Ok <==> ext_norm(self.val0(), self.val1()) != 0 && (self.is_constant()
                || old(ctx).has_room(2)),
            match r {
                Ok(v) => {
                    &&& v.wf()
                    &&& v.val0() == gl_mul(self.val0(), gl_inv(ext_norm(self.val0(), self.val1())))
                    &&& v.val1() == gl_mul(
                        gl_neg(self.val1()),
                        gl_inv(ext_norm(self.val0(), self.val1())),
                    )
                    &&& v.is_constant() == self.is_constant()
                    &&& (self.is_constant() ==> *final(ctx) == *old(ctx))
                    &&& (!self.is_constant() ==> final(ctx).witnesses == old(ctx).witnesses + 2
                        && final(ctx).constraints == old(ctx).constraints + 2)
                },
                Err(e) => {
                    &&& *final(ctx) == *old(ctx)
                    &&& (ext_norm(self.val0(), self.val1()) == 0 ==> e
                        == FieldError::DivisionByZero)
                    &&& (ext_norm(self.val0(), self.val1()) != 0 ==> e
                        == FieldError::ArithmeticUnsatisfiable && !self.is_constant())
                },
            },
    {
        let a = GoldilocksExt2::new(self.c0.value, self.c1.value);
        let inv = match a.invert() {
            Ok(v) => v,
            Err(e) => {
                return Err(e);
            },
        };
        if self.c0.is_constant && self.c1.is_constant {
            Ok(
                GoldilocksFieldExt {
                    c0: GoldilocksField { value: inv.c0, is_constant: true },
                    c1: GoldilocksField { value: inv.c1, is_constant: true },
                },
            )
        } else if ctx.witness_limit - ctx.witnesses >= 2 {
            ctx.witnesses = ctx.witnesses + 2;
            ctx.constraints = ctx.constraints + 2;
            Ok(
                GoldilocksFieldExt {
                    c0: GoldilocksField { value: inv.c0, is_constant: false },
                    c1: GoldilocksField { value: inv.c1, is_constant: false },
                },
            )
        } else {
            Err(FieldError::ArithmeticUnsatisfiable)
        }
    }
}

} // verus!
