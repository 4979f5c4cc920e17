//! The field capability: one abstract interface for every field-like
//! value, whether it is a native residue computed directly or an emulated
//! value threaded through a mutable circuit-building context.
//!
//! Each operation's contract is stated through relations that every
//! implementation defines over its own representation: `sum_of(r, a, b)`
//! says that `r` represents the field sum of `a` and `b`, and so on. The
//! law obligations at the end bind those relations together, so that they
//! cannot drift apart: subtraction is addition of the negation, doubling
//! is self-addition, squaring is self-multiplication, negation is an
//! involution, and the represented value of a sum or product never
//! depends on which operand was a witness-free constant.

use vstd::prelude::*;

verus! {

/// The empty context of the native field: direct arithmetic has no side
/// effects and nothing to allocate.
#[derive(Clone, Copy, Debug, PartialEq, Eq, Structural)]
pub struct NoContext;

/// The capability every field-like value offers to circuit gadgets.
///
/// In-place operations mutate `self` by whole-value replacement and
/// return a reference to `self` for chaining; no operation ever edits a
/// previously copied value. Operations borrow the context exclusively,
/// so two operations can never interleave on one session. Identity and
/// constant construction never consume a witness slot, and combining two
/// witness-free values stays witness-free and leaves the context
/// untouched.
///
/// Inversion requires a value that does not represent zero: resolving
/// the zero case is the caller's burden, settled statically rather than
/// at circuit-building time.
pub trait FieldCapability: Sized {
    /// The pure mathematical field this value logically represents.
    type Base;

    /// The session through which constraint emission flows.
    type Context;

    /// The value is well formed (canonical representation).
    spec fn wf(self) -> bool;

    /// The value is witness-free: a fixed constant of the circuit.
    spec fn is_cheap(self) -> bool;

    /// The context is well formed.
    spec fn ctx_wf(ctx: Self::Context) -> bool;

    /// The context has room for one more operation.
    spec fn ctx_ready(ctx: Self::Context) -> bool;

    /// Append-only context evolution: nothing emitted is removed.
    spec fn ctx_evolves(pre: Self::Context, post: Self::Context) -> bool;

    /// Both values represent the same element of the base field.
    spec fn same_value(a: Self, b: Self) -> bool;

    /// The value represents the additive identity.
    spec fn zero_val(self) -> bool;

    /// The value represents the multiplicative identity.
    spec fn one_val(self) -> bool;

    /// The value represents the negated multiplicative identity.
    spec fn minus_one_val(self) -> bool;

    /// `r` represents the field sum of `a` and `b`.
    spec fn sum_of(r: Self, a: Self, b: Self) -> bool;

    /// `r` represents the field difference of `a` and `b`.
    spec fn diff_of(r: Self, a: Self, b: Self) -> bool;

    /// `r` represents the field product of `a` and `b`.
    spec fn prod_of(r: Self, a: Self, b: Self) -> bool;

    /// `r` represents twice `a`.
    spec fn dbl_of(r: Self, a: Self) -> bool;

    /// `r` represents the square of `a`.
    spec fn sq_of(r: Self, a: Self) -> bool;

    /// `r` represents the additive inverse of `a`.
    spec fn neg_of(r: Self, a: Self) -> bool;

    /// `r` represents the multiplicative inverse of `a`.
    spec fn inv_of(r: Self, a: Self) -> bool;

    /// `r` represents the injected base value `v`.
    spec fn lift_of(r: Self, v: Self::Base) -> bool;

    /// The base value is well formed.
    spec fn base_wf(v: Self::Base) -> bool;

    /// Constructs the additive identity, witness-free.
    fn zero(ctx: &mut Self::Context) -> (r: Self)
        requires
            Self::ctx_wf(*old(ctx)),
        ensures
            *final(ctx) == *old(ctx),
            r.wf(),
            r.is_cheap(),
            r.zero_val(),
    ;

    /// Constructs the multiplicative identity, witness-free.
    fn one(ctx: &mut Self::Context) -> (r: Self)
        requires
            Self::ctx_wf(*old(ctx)),
        ensures
            *final(ctx) == *old(ctx),
            r.wf(),
            r.is_cheap(),
            r.one_val(),
    ;

    /// Constructs the additive inverse of the multiplicative identity,
    /// witness-free.
    fn minus_one(ctx: &mut Self::Context) -> (r: Self)
        requires
            Self::ctx_wf(*old(ctx)),
        ensures
            *final(ctx) == *old(ctx),
            r.wf(),
            r.is_cheap(),
            r.minus_one_val(),
    ;

    /// Injects a base value as a fixed in-context value, without
    /// consuming a witness slot.
    fn constant(value: Self::Base, ctx: &mut Self::Context) -> (r: Self)
        requires
            Self::base_wf(value),
            Self::ctx_wf(*old(ctx)),
        ensures
            *final(ctx) == *old(ctx),
            r.wf(),
            r.is_cheap(),
            Self::lift_of(r, value),
    ;

    /// `self := self + other`, emitting whatever the context requires to
    /// bind the result to that sum.
    fn add_assign(&mut self, other: &Self, ctx: &mut Self::Context) -> (r: &mut Self)
        requires
            old(self).wf(),
            other.wf(),
            Self::ctx_wf(*old(ctx)),
            Self::ctx_ready(*old(ctx)),
        ensures
            Self::ctx_wf(*final(ctx)),
            Self::ctx_evolves(*old(ctx), *final(ctx)),
            (*r).wf(),
            Self::sum_of(*r, *old(self), *other),
            (*r).is_cheap() == (old(self).is_cheap() && other.is_cheap()),
            old(self).is_cheap() && other.is_cheap() ==> *final(ctx) == *old(ctx),
            *final(self) == *final(r),
    ;

    /// `self := self - other`, as addition of the negated operand.
    fn sub_assign(&mut self, other: &Self, ctx: &mut Self::Context) -> (r: &mut Self)
        requires
            old(self).wf(),
            other.wf(),
            Self::ctx_wf(*old(ctx)),
            Self::ctx_ready(*old(ctx)),
        ensures
            Self::ctx_wf(*final(ctx)),
            Self::ctx_evolves(*old(ctx), *final(ctx)),
            (*r).wf(),
            Self::diff_of(*r, *old(self), *other),
            (*r).is_cheap() == (old(self).is_cheap() && other.is_cheap()),
            old(self).is_cheap() && other.is_cheap() ==> *final(ctx) == *old(ctx),
            *final(self) == *final(r),
    ;

    /// `self := self * other`.
    fn mul_assign(&mut self, other: &Self, ctx: &mut Self::Context) -> (r: &mut Self)
        requires
            old(self).wf(),
            other.wf(),
            Self::ctx_wf(*old(ctx)),
            Self::ctx_ready(*old(ctx)),
        ensures
            Self::ctx_wf(*final(ctx)),
            Self::ctx_evolves(*old(ctx), *final(ctx)),
            (*r).wf(),
            Self::prod_of(*r, *old(self), *other),
            (*r).is_cheap() == (old(self).is_cheap() && other.is_cheap()),
            old(self).is_cheap() && other.is_cheap() ==> *final(ctx) == *old(ctx),
            *final(self) == *final(r),
    ;

    /// `self := self * self`, through multiplication with a copy.
    fn square(&mut self, ctx: &mut Self::Context) -> (r: &mut Self)
        requires
            old(self).wf(),
            Self::ctx_wf(*old(ctx)),
            Self::ctx_ready(*old(ctx)),
        ensures
            Self::ctx_wf(*final(ctx)),
            Self::ctx_evolves(*old(ctx), *final(ctx)),
            (*r).wf(),
            Self::sq_of(*r, *old(self)),
            (*r).is_cheap() == old(self).is_cheap(),
            old(self).is_cheap() ==> *final(ctx) == *old(ctx),
            *final(self) == *final(r),
    ;

    /// `self := -self`.
    fn negate(&mut self, ctx: &mut Self::Context) -> (r: &mut Self)
        requires
            old(self).wf(),
            Self::ctx_wf(*old(ctx)),
        ensures
            Self::ctx_wf(*final(ctx)),
            *final(ctx) == *old(ctx),
            (*r).wf(),
            Self::neg_of(*r, *old(self)),
            (*r).is_cheap() == old(self).is_cheap(),
            *final(self) == *final(r),
    ;

    /// `self := self + self`, through addition with a copy.
    fn double(&mut self, ctx: &mut Self::Context) -> (r: &mut Self)
        requires
            old(self).wf(),
            Self::ctx_wf(*old(ctx)),
            Self::ctx_ready(*old(ctx)),
        ensures
            Self::ctx_wf(*final(ctx)),
            Self::ctx_evolves(*old(ctx), *final(ctx)),
            (*r).wf(),
            Self::dbl_of(*r, *old(self)),
            (*r).is_cheap() == old(self).is_cheap(),
            old(self).is_cheap() ==> *final(ctx) == *old(ctx),
            *final(self) == *final(r),
    ;

    /// Returns the multiplicative inverse without mutating `self`. The
    /// zero case is excluded statically: this layer never resolves it at
    /// circuit-building time.
    fn inverse(&self, ctx: &mut Self::Context) -> (r: Self)
        requires
            self.wf(),
            !self.zero_val(),
            Self::ctx_wf(*old(ctx)),
            Self::ctx_ready(*old(ctx)),
        ensures
            Self::ctx_wf(*final(ctx)),
            Self::ctx_evolves(*old(ctx), *final(ctx)),
            r.wf(),
            Self::inv_of(r, *self),
            r.is_cheap() == self.is_cheap(),
            self.is_cheap() ==> *final(ctx) == *old(ctx),
    ;

    /// Doubling is self-addition.
    proof fn law_double_is_self_sum(d: Self, s: Self, x: Self)
        requires
            x.wf(),
            Self::dbl_of(d, x),
            Self::sum_of(s, x, x),
        ensures
            Self::same_value(d, s),
    ;

    /// Squaring is self-multiplication.
    proof fn law_square_is_self_prod(sq: Self, p: Self, x: Self)
        requires
            x.wf(),
            Self::sq_of(sq, x),
            Self::prod_of(p, x, x),
        ensures
            Self::same_value(sq, p),
    ;

    /// Subtraction is addition of the negation.
    proof fn law_sub_is_add_neg(d: Self, n: Self, s: Self, a: Self, b: Self)
        requires
            a.wf(),
            b.wf(),
            Self::diff_of(d, a, b),
            Self::neg_of(n, b),
            Self::sum_of(s, a, n),
        ensures
            Self::same_value(d, s),
    ;

    /// Negation is an involution.
    proof fn law_neg_involutive(n: Self, m: Self, x: Self)
        requires
            x.wf(),
            Self::neg_of(n, x),
            Self::neg_of(m, n),
        ensures
            Self::same_value(m, x),
    ;

    /// The represented value of a sum depends only on the represented
    /// values of the operands — in particular not on whether either was a
    /// witness-free constant or an allocated value.
    proof fn law_sum_respects_value(r1: Self, a1: Self, b1: Self, r2: Self, a2: Self, b2: Self)
        requires
            Self::sum_of(r1, a1, b1),
            Self::sum_of(r2, a2, b2),
            Self::same_value(a1, a2),
            Self::same_value(b1, b2),
        ensures
            Self::same_value(r1, r2),
    ;

    /// The represented value of a product depends only on the represented
    /// values of the operands.
    proof fn law_prod_respects_value(r1: Self, a1: Self, b1: Self, r2: Self, a2: Self, b2: Self)
        requires
            Self::prod_of(r1, a1, b1),
            Self::prod_of(r2, a2, b2),
            Self::same_value(a1, a2),
            Self::same_value(b1, b2),
        ensures
            Self::same_value(r1, r2),
    ;
}

} // verus!
