//! The two emulated implementations of the field capability: a foreign
//! base-field element and a foreign quadratic-extension element, each
//! wrapping a context-bound representation and re-wrapping the result of
//! every delegated operation.
//!
//! A delegated operation can fail when the session cannot represent the
//! result; this layer's policy is fail-fast with no recovery, so each
//! capability operation demands up front (through `ctx_ready`) the room
//! the delegated call could need, and the delegated result is then owed.

use vstd::prelude::*;
use vstd::arithmetic::div_mod::{lemma_add_mod_noop_right, lemma_small_mod};
use crate::capability::FieldCapability;
use crate::context::{Context, GoldilocksField, GoldilocksFieldExt};
use crate::goldilocks::{
    ext_mul_c0, ext_mul_c1, ext_norm, gl_add, gl_double, gl_inv, gl_mul, gl_neg, gl_square,
    gl_sub, gp, Goldilocks,
};

verus! {

/// A foreign base-field element emulated in the circuit: a context-bound
/// value with whole-value-replacement semantics.
#[derive(Clone, Copy, Debug, PartialEq, Eq, Structural, Hash)]
pub struct GoldilocksAsFieldWrapper {
    /// The context-bound representation this wrapper delegates to.
    pub inner: GoldilocksField,
}

impl From<GoldilocksField> for GoldilocksAsFieldWrapper {
    fn from(value: GoldilocksField) -> (r: Self) {
        GoldilocksAsFieldWrapper { inner: value }
    }
}

impl vstd::std_specs::convert::FromSpecImpl<GoldilocksField> for GoldilocksAsFieldWrapper {
    open spec fn obeys_from_spec() -> bool {
        true
    }

    open spec fn from_spec(value: GoldilocksField) -> Self {
        GoldilocksAsFieldWrapper { inner: value }
    }
}

impl FieldCapability for GoldilocksAsFieldWrapper {
    type Base = Goldilocks;

    type Context = Context;

    open spec fn wf(self) -> bool {
        self.inner.wf()
    }

    open spec fn is_cheap(self) -> bool {
        self.inner.is_constant
    }

    open spec fn ctx_wf(ctx: Context) -> bool {
        ctx.wf()
    }

    open spec fn ctx_ready(ctx: Context) -> bool {
        ctx.has_room(1)
    }

    open spec fn ctx_evolves(pre: Context, post: Context) -> bool {
        pre.evolves_to(post)
    }

    open spec fn same_value(a: Self, b: Self) -> bool {
        a.inner.val() == b.inner.val()
    }

    open spec fn zero_val(self) -> bool {
        self.inner.val() == 0
    }

    open spec fn one_val(self) -> bool {
        self.inner.val() == 1
    }

    open spec fn minus_one_val(self) -> bool {
        self.inner.val() == gp() - 1
    }

    open spec fn sum_of(r: Self, a: Self, b: Self) -> bool {
        r.inner.val() == gl_add(a.inner.val(), b.inner.val())
    }

    open spec fn diff_of(r: Self, a: Self, b: Self) -> bool {
        r.inner.val() == gl_sub(a.inner.val(), b.inner.val())
    }

    open spec fn prod_of(r: Self, a: Self, b: Self) -> bool {
        r.inner.val() == gl_mul(a.inner.val(), b.inner.val())
    }

    open spec fn dbl_of(r: Self, a: Self) -> bool {
        r.inner.val() == gl_double(a.inner.val())
    }

    open spec fn sq_of(r: Self, a: Self) -> bool {
        r.inner.val() == gl_square(a.inner.val())
    }

    open spec fn neg_of(r: Self, a: Self) -> bool {
        r.inner.val() == gl_neg(a.inner.val())
    }

    open spec fn inv_of(r: Self, a: Self) -> bool {
        r.inner.val() == gl_inv(a.inner.val())
    }

    open spec fn lift_of(r: Self, v: Goldilocks) -> bool {
        r.inner.val() == v.value()
    }

    open spec fn base_wf(v: Goldilocks) -> bool {
        v.wf()
    }

    fn zero(_ctx: &mut Context) -> Self {
        let inner = GoldilocksField::zero();
        GoldilocksAsFieldWrapper::from(inner)
    }

    fn one(_ctx: &mut Context) -> Self {
        let inner = GoldilocksField::one();
        GoldilocksAsFieldWrapper::from(inner)
    }

    fn minus_one(_ctx: &mut Context) -> Self {
        let inner = GoldilocksField::minus_one();
        GoldilocksAsFieldWrapper::from(inner)
    }

    fn constant(value: Goldilocks, _ctx: &mut Context) -> Self {
        let inner = GoldilocksField::constant_from_field(value);
        GoldilocksAsFieldWrapper::from(inner)
    }

    fn add_assign(&mut self, other: &Self, ctx: &mut Context) -> &mut Self {
        let new = self.inner.add(ctx, &other.inner).unwrap();
        *self = GoldilocksAsFieldWrapper::from(new);
        self
    }

    fn sub_assign(&mut self, other: &Self, ctx: &mut Context) -> &mut Self {
        let mut other_negate = *other;
        other_negate.negate(ctx);
        self.add_assign(&other_negate, ctx);
        proof {
            // adding the negation is subtraction under one reduction
            lemma_add_mod_noop_right(old(self).inner.val(), gp() - other.inner.val(), gp());
        }
        self
    }

    fn mul_assign(&mut self, other: &Self, ctx: &mut Context) -> &mut Self {
        let new = self.inner.mul(ctx, &other.inner).unwrap();
        *self = GoldilocksAsFieldWrapper::from(new);
        self
    }

    fn square(&mut self, ctx: &mut Context) -> &mut Self {
        let this = self.inner;
        let new = self.inner.mul(ctx, &this).unwrap();
        *self = GoldilocksAsFieldWrapper::from(new);
        self
    }

    fn negate(&mut self, ctx: &mut Context) -> &mut Self {
        self.inner = self.inner.negate(ctx).unwrap();
        self
    }

    fn double(&mut self, ctx: &mut Context) -> &mut Self {
        let this = self.inner;
        let new = self.inner.add(ctx, &this).unwrap();
        *self = GoldilocksAsFieldWrapper::from(new);
        self
    }

    fn inverse(&self, ctx: &mut Context) -> Self {
        let new = self.inner.inverse(ctx).unwrap();
        GoldilocksAsFieldWrapper::from(new)
    }

    proof fn law_double_is_self_sum(d: Self, s: Self, x: Self) {
    }

    proof fn law_square_is_self_prod(sq: Self, p: Self, x: Self) {
    }

    proof fn law_sub_is_add_neg(d: Self, n: Self, s: Self, a: Self, b: Self) {
        lemma_add_mod_noop_right(a.inner.val(), gp() - b.inner.val(), gp());
    }

    proof fn law_neg_involutive(n: Self, m: Self, x: Self) {
        if x.inner.val() == 0 {
            vstd::arithmetic::div_mod::lemma_mod_self_0(gp());
        } else {
            lemma_small_mod((gp() - x.inner.val()) as nat, gp() as nat);
            lemma_small_mod(x.inner.val() as nat, gp() as nat);
        }
    }

    proof fn law_sum_respects_value(r1: Self, a1: Self, b1: Self, r2: Self, a2: Self, b2: Self) {
    }

    proof fn law_prod_respects_value(r1: Self, a1: Self, b1: Self, r2: Self, a2: Self, b2: Self) {
    }
}

/// A foreign quadratic-extension element emulated in the circuit, over a
/// two-limb context-bound representation.
#[derive(Clone, Copy, Debug, PartialEq, Eq, Structural, Hash)]
pub struct GoldilocksExtAsFieldWrapper {
    /// The context-bound two-limb representation this wrapper delegates to.
    pub inner: GoldilocksFieldExt,
}

impl From<GoldilocksFieldExt> for GoldilocksExtAsFieldWrapper {
    fn from(value: GoldilocksFieldExt) -> (r: Self) {
        GoldilocksExtAsFieldWrapper { inner: value }
    }
}

impl vstd::std_specs::convert::FromSpecImpl<GoldilocksFieldExt> for GoldilocksExtAsFieldWrapper {
    open spec fn obeys_from_spec() -> bool {
        true
    }

    open spec fn from_spec(value: GoldilocksFieldExt) -> Self {
        GoldilocksExtAsFieldWrapper { inner: value }
    }
}

impl FieldCapability for GoldilocksExtAsFieldWrapper {
    type Base = Goldilocks;

    type Context = Context;

    open spec fn wf(self) -> bool {
        self.inner.wf()
    }

    open spec fn is_cheap(self) -> bool {
        self.inner.is_constant()
    }

    open spec fn ctx_wf(ctx: Context) -> bool {
        ctx.wf()
    }

    open spec fn ctx_ready(ctx: Context) -> bool {
        ctx.has_room(2)
    }

    open spec fn ctx_evolves(pre: Context, post: Context) -> bool {
        pre.evolves_to(post)
    }

    open spec fn same_value(a: Self, b: Self) -> bool {
        a.inner.val0() == b.inner.val0() && a.inner.val1() == b.inner.val1()
    }

    /// The norm vanishes exactly on the additive identity, since 7 is not
    /// a square in the base field; a vanishing norm is also precisely what
    /// makes inversion undefined for this representation.
    open spec fn zero_val(self) -> bool {
        ext_norm(self.inner.val0(), self.inner.val1()) == 0
    }

    open spec fn one_val(self) -> bool {
        self.inner.val0() == 1 && self.inner.val1() == 0
    }

    open spec fn minus_one_val(self) -> bool {
        self.inner.val0() == gp() - 1 && self.inner.val1() == 0
    }

    open spec fn sum_of(r: Self, a: Self, b: Self) -> bool {
        r.inner.val0() == gl_add(a.inner.val0(), b.inner.val0()) && r.inner.val1() == gl_add(
            a.inner.val1(),
            b.inner.val1(),
        )
    }

    open spec fn diff_of(r: Self, a: Self, b: Self) -> bool {
        r.inner.val0() == gl_sub(a.inner.val0(), b.inner.val0()) && r.inner.val1() == gl_sub(
            a.inner.val1(),
            b.inner.val1(),
        )
    }

    open spec fn prod_of(r: Self, a: Self, b: Self) -> bool {
        r.inner.val0() == ext_mul_c0(
            a.inner.val0(),
            a.inner.val1(),
            b.inner.val0(),
            b.inner.val1(),
        ) && r.inner.val1() == ext_mul_c1(
            a.inner.val0(),
            a.inner.val1(),
            b.inner.val0(),
            b.inner.val1(),
        )
    }

    open spec fn dbl_of(r: Self, a: Self) -> bool {
        r.inner.val0() == gl_double(a.inner.val0()) && r.inner.val1() == gl_double(
            a.inner.val1(),
        )
    }

    open spec fn sq_of(r: Self, a: Self) -> bool {
        r.inner.val0() == ext_mul_c0(
            a.inner.val0(),
            a.inner.val1(),
            a.inner.val0(),
            a.inner.val1(),
        ) && r.inner.val1() == ext_mul_c1(
            a.inner.val0(),
            a.inner.val1(),
            a.inner.val0(),
            a.inner.val1(),
        )
    }

    open spec fn neg_of(r: Self, a: Self) -> bool {
        r.inner.val0() == gl_neg(a.inner.val0()) && r.inner.val1() == gl_neg(a.inner.val1())
    }

    open spec fn inv_of(r: Self, a: Self) -> bool {
        r.inner.val0() == gl_mul(
            a.inner.val0(),
            gl_inv(ext_norm(a.inner.val0(), a.inner.val1())),
        ) && r.inner.val1() == gl_mul(
            gl_neg(a.inner.val1()),
            gl_inv(ext_norm(a.inner.val0(), a.inner.val1())),
        )
    }

    open spec fn lift_of(r: Self, v: Goldilocks) -> bool {
        r.inner.val0() == v.value() && r.inner.val1() == 0
    }

    open spec fn base_wf(v: Goldilocks) -> bool {
        v.wf()
    }

    fn zero(_ctx: &mut Context) -> Self {
        let inner = GoldilocksFieldExt::zero();
        GoldilocksExtAsFieldWrapper::from(inner)
    }

    fn one(_ctx: &mut Context) -> Self {
        let inner = GoldilocksFieldExt::one();
        GoldilocksExtAsFieldWrapper::from(inner)
    }

    fn minus_one(_ctx: &mut Context) -> Self {
        let inner = GoldilocksFieldExt::minus_one();
        GoldilocksExtAsFieldWrapper::from(inner)
    }

    fn constant(value: Goldilocks, _ctx: &mut Context) -> Self {
        let inner = GoldilocksFieldExt::constant_from_field(value);
        GoldilocksExtAsFieldWrapper::from(inner)
    }

    fn add_assign(&mut self, other: &Self, ctx: &mut Context) -> &mut Self {
        let new = self.inner.add(ctx, &other.inner).unwrap();
        *self = GoldilocksExtAsFieldWrapper::from(new);
        self
    }

    fn sub_assign(&mut self, other: &Self, ctx: &mut Context) -> &mut Self {
        let mut other_negate = *other;
        other_negate.negate(ctx);
        self.add_assign(&other_negate, ctx);
        proof {
            // adding the negation is subtraction under one reduction
            lemma_add_mod_noop_right(old(self).inner.val0(), gp() - other.inner.val0(), gp());
            lemma_add_mod_noop_right(old(self).inner.val1(), gp() - other.inner.val1(), gp());
        }
        self
    }

    fn mul_assign(&mut self, other: &Self, ctx: &mut Context) -> &mut Self {
        let new = self.inner.mul(ctx, &other.inner).unwrap();
        *self = GoldilocksExtAsFieldWrapper::from(new);
        self
    }

    fn square(&mut self, ctx: &mut Context) -> &mut Self {
        let this = self.inner;
        let new = self.inner.mul(ctx, &this).unwrap();
        *self = GoldilocksExtAsFieldWrapper::from(new);
        self
    }

    fn negate(&mut self, ctx: &mut Context) -> &mut Self {
        self.inner = self.inner.negate(ctx).unwrap();
        self
    }

    fn double(&mut self, ctx: &mut Context) -> &mut Self {
        let this = self.inner;
        let new = self.inner.add(ctx, &this).unwrap();
        *self = GoldilocksExtAsFieldWrapper::from(new);
        self
    }

    fn inverse(&self, ctx: &mut Context) -> Self {
        let new = self.inner.inverse(ctx).unwrap();
        GoldilocksExtAsFieldWrapper::from(new)
    }

    proof fn law_double_is_self_sum(d: Self, s: Self, x: Self) {
    }

    proof fn law_square_is_self_prod(sq: Self, p: Self, x: Self) {
    }

    proof fn law_sub_is_add_neg(d: Self, n: Self, s: Self, a: Self, b: Self) {
        lemma_add_mod_noop_right(a.inner.val0(), gp() - b.inner.val0(), gp());
        lemma_add_mod_noop_right(a.inner.val1(), gp() - b.inner.val1(), gp());
    }

    proof fn law_neg_involutive(n: Self, m: Self, x: Self) {
        if x.inner.val0() == 0 || x.inner.val1() == 0 {
            vstd::arithmetic::div_mod::lemma_mod_self_0(gp());
        }
        if x.inner.val0() != 0 {
            lemma_small_mod((gp() - x.inner.val0()) as nat, gp() as nat);
            lemma_small_mod(x.inner.val0() as nat, gp() as nat);
        }
        if x.inner.val1() != 0 {
            lemma_small_mod((gp() - x.inner.val1()) as nat, gp() as nat);
            lemma_small_mod(x.inner.val1() as nat, gp() as nat);
        }
    }

    proof fn law_sum_respects_value(r1: Self, a1: Self, b1: Self, r2: Self, a2: Self, b2: Self) {
    }

    proof fn law_prod_respects_value(r1: Self, a1: Self, b1: Self, r2: Self, a2: Self, b2: Self) {
    }
}

} // verus!
