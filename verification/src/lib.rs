//! A field-arithmetic layer for arithmetic-circuit construction.
//!
//! The crate provides two notions of "field element" behind one capability
//! interface: elements of a native prime field represented directly as
//! canonical residues, and elements of a foreign (emulated) field represented
//! as values bound to a mutable circuit-building [`context::Context`].

pub mod capability;
pub mod context;
pub mod fq;
pub mod goldilocks;
pub mod prime_field_like;

use vstd::prelude::*;

verus! {

/// Failures that field operations can signal.
#[derive(Clone, Copy, Debug, PartialEq, Eq, Structural)]
pub enum FieldError {
    /// The context could not represent the requested computation
    /// (its internal allocation limit was reached).
    ArithmeticUnsatisfiable,
    /// A multiplicative inverse of the additive identity was requested.
    DivisionByZero,
}

} // verus!
