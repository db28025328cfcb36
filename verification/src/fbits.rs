//! IEEE-754 binary32 arithmetic over raw bit patterns.
//!
//! Samples are carried through the crate as the `u32` bit pattern of an
//! IEEE-754 single-precision value. The arithmetic itself is delegated to
//! `rustc_apfloat`, a software implementation of IEEE-754 binary32 with
//! round-to-nearest-even, the same semantics Rust gives `f32`. Each
//! operation's result is named by an uninterpreted spec function of the
//! operand bit patterns: IEEE-754 arithmetic is a pure function of its
//! operands, identical on every machine.

use rustc_apfloat::ieee::Single;
use rustc_apfloat::Float;
use vstd::prelude::*;

verus! {

pub uninterp spec fn fadd_bits(a: u32, b: u32) -> u32;

pub uninterp spec fn fsub_bits(a: u32, b: u32) -> u32;

pub uninterp spec fn fmul_bits(a: u32, b: u32) -> u32;

pub uninterp spec fn fdiv_bits(a: u32, b: u32) -> u32;

pub uninterp spec fn from_u24_bits(v: u32) -> u32;

pub uninterp spec fn as_i16_bits(a: u32) -> i16;

/// Relies on rustc_apfloat's IEEE binary32 addition with
/// round-to-nearest-even: the result depends on the two operands alone.
#[verifier::external_body]
pub(crate) fn f_add(a: u32, b: u32) -> (r: u32)
    ensures
        r == fadd_bits(a, b),
{
    let x = Single::from_bits(a as u128);
    let y = Single::from_bits(b as u128);
    (x + y).value.to_bits() as u32
}

/// Relies on rustc_apfloat's IEEE binary32 subtraction with
/// round-to-nearest-even: the result depends on the two operands alone.
#[verifier::external_body]
pub(crate) fn f_sub(a: u32, b: u32) -> (r: u32)
    ensures
        r == fsub_bits(a, b),
{
    let x = Single::from_bits(a as u128);
    let y = Single::from_bits(b as u128);
    (x - y).value.to_bits() as u32
}

/// Relies on rustc_apfloat's IEEE binary32 multiplication with
/// round-to-nearest-even: the result depends on the two operands alone.
#[verifier::external_body]
pub(crate) fn f_mul(a: u32, b: u32) -> (r: u32)
    ensures
        r == fmul_bits(a, b),
{
    let x = Single::from_bits(a as u128);
    let y = Single::from_bits(b as u128);
    (x * y).value.to_bits() as u32
}

/// Relies on rustc_apfloat's IEEE binary32 division with
/// round-to-nearest-even: the result depends on the two operands alone.
#[verifier::external_body]
pub(crate) fn f_div(a: u32, b: u32) -> (r: u32)
    ensures
        r == fdiv_bits(a, b),
{
    let x = Single::from_bits(a as u128);
    let y = Single::from_bits(b as u128);
    (x / y).value.to_bits() as u32
}

/// Relies on rustc_apfloat's conversion from an unsigned integer to IEEE
/// binary32 (`Float::from_u128`): the result depends on the integer alone.
#[verifier::external_body]
pub(crate) fn f_from_u24(v: u32) -> (r: u32)
    ensures
        r == from_u24_bits(v),
{
    Single::from_u128(v as u128).value.to_bits() as u32
}

/// Relies on rustc_apfloat's conversion to a 16-bit signed integer
/// (`Float::to_i128` with width 16), which truncates toward zero and, as its
/// documentation states, returns zero for NaN and the minimal or maximal
/// value on overflow - the semantics of Rust's saturating `as i16` cast.
#[verifier::external_body]
pub(crate) fn f_as_i16(a: u32) -> (r: i16)
    ensures
        r == as_i16_bits(a),
{
    let x = Single::from_bits(a as u128);
    x.to_i128(16).value as i16
}

} // verus!
