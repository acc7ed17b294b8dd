//! Floating-point arithmetic, delegated to the embedder.
//!
//! The machine carries `float` and `double` values as raw IEEE-754 bit
//! patterns and never computes on them itself. An embedder supplies an
//! implementation of [`FloatOps`] (ordinarily backed by the host's `f32` and
//! `f64`); nothing about the results is assumed or verified here, so every
//! contract downstream holds for any implementation.

use vstd::prelude::*;

verus! {

/// The value an implementation's comparison methods return for an unordered
/// (NaN) comparison; any other value is read as the sign of the ordering.
pub const FLOAT_CMP_UNORDERED: i32 = 2;

/// Arithmetic on IEEE-754 bit patterns: `u32` carries a `float`, `u64`
/// carries a `double`. Implementations live outside the verified core.
pub trait FloatOps {
    fn fadd(&self, a: u32, b: u32) -> u32;

    fn fsub(&self, a: u32, b: u32) -> u32;

    fn fmul(&self, a: u32, b: u32) -> u32;

    fn fdiv(&self, a: u32, b: u32) -> u32;

    fn frem(&self, a: u32, b: u32) -> u32;

    fn dadd(&self, a: u64, b: u64) -> u64;

    fn dsub(&self, a: u64, b: u64) -> u64;

    fn dmul(&self, a: u64, b: u64) -> u64;

    fn ddiv(&self, a: u64, b: u64) -> u64;

    fn drem(&self, a: u64, b: u64) -> u64;

    /// Negative, zero or positive for an ordered comparison;
    /// `FLOAT_CMP_UNORDERED` when either operand is NaN.
    fn fcmp(&self, a: u32, b: u32) -> i32;

    /// Negative, zero or positive for an ordered comparison;
    /// `FLOAT_CMP_UNORDERED` when either operand is NaN.
    fn dcmp(&self, a: u64, b: u64) -> i32;

    fn i2f(&self, v: i32) -> u32;

    fn i2d(&self, v: i32) -> u64;

    fn l2f(&self, v: i64) -> u32;

    fn l2d(&self, v: i64) -> u64;

    fn f2i(&self, v: u32) -> i32;

    fn f2l(&self, v: u32) -> i64;

    fn f2d(&self, v: u32) -> u64;

    fn d2i(&self, v: u64) -> i32;

    fn d2l(&self, v: u64) -> i64;

    fn d2f(&self, v: u64) -> u32;
}

} // verus!
