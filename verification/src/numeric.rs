//! The numeric layer: what a counter or a balance type must offer.
//!
//! A [`Scalar`] is a fixed-width unsigned quantity that is modelled by the
//! natural number it stands for. All arithmetic on scalars is checked: an
//! operation either yields the exact mathematical result or reports that the
//! result cannot be represented.

use vstd::prelude::*;

verus! {

/// A fixed-width unsigned quantity with a zero and a checked addition.
pub trait Scalar: Copy + Sized {
    /// The natural number that this scalar stands for.
    spec fn value(&self) -> nat;

    /// The largest natural number that the type can represent.
    spec fn max_value() -> nat;

    /// Every scalar lies within the representable range.
    proof fn lemma_value_in_range(&self)
        ensures
            self.value() <= Self::max_value(),
    ;

    /// The scalar that stands for 0.
    fn zero() -> (z: Self)
        ensures
            z.value() == 0,
    ;

    /// The sum of two scalars, or `None` exactly when the sum is not
    /// representable.
    fn checked_add(&self, v: &Self) -> (sum: Option<Self>)
        ensures
            match sum {
                Some(s) => s.value() == self.value() + v.value(),
                None => self.value() + v.value() > Self::max_value(),
            },
    ;
}

/// A scalar that can count: it has a one, so it can be advanced in unit steps.
pub trait Counter: Scalar {
    /// The scalar that stands for 1.
    fn one() -> (o: Self)
        ensures
            o.value() == 1,
    ;
}

/// A scalar that can hold an amount of funds: it can also be subtracted from
/// and tested for zero.
pub trait Amount: Scalar {
    /// The difference of two scalars, or `None` exactly when `v` exceeds
    /// `self`.
    fn checked_sub(&self, v: &Self) -> (difference: Option<Self>)
        ensures
            match difference {
                Some(d) => d.value() == self.value() - v.value(),
                None => self.value() < v.value(),
            },
    ;

    /// Whether the scalar stands for 0.
    fn is_zero(&self) -> (r: bool)
        ensures
            r == (self.value() == 0),
    ;
}

/// Calls `num::Zero::zero` for `u32`, whose implementation returns the
/// literal `0`.
#[verifier::external_body]
fn zero_u32() -> (z: u32)
    ensures
        z == 0,
{
    <u32 as num::Zero>::zero()
}

/// Calls `num::One::one` for `u32`, whose implementation returns the literal
/// `1`.
#[verifier::external_body]
fn one_u32() -> (o: u32)
    ensures
        o == 1,
{
    <u32 as num::One>::one()
}

/// Calls `num::CheckedAdd::checked_add` for `u32`, whose implementation
/// forwards to the primitive `u32::checked_add`: the sum when it fits in 32
/// bits, `None` otherwise.
#[verifier::external_body]
fn checked_add_u32(a: &u32, v: &u32) -> (sum: Option<u32>)
    ensures
        sum == (if *a + *v <= u32::MAX {
            Some((*a + *v) as u32)
        } else {
            None
        }),
{
    <u32 as num::CheckedAdd>::checked_add(a, v)
}

/// Calls `num::Zero::zero` for `u128`, whose implementation returns the
/// literal `0`.
#[verifier::external_body]
fn zero_u128() -> (z: u128)
    ensures
        z == 0,
{
    <u128 as num::Zero>::zero()
}

/// Calls `num::CheckedAdd::checked_add` for `u128`, whose implementation
/// forwards to the primitive `u128::checked_add`: the sum when it fits in 128
/// bits, `None` otherwise.
#[verifier::external_body]
fn checked_add_u128(a: &u128, v: &u128) -> (sum: Option<u128>)
    ensures
        sum == (if *a + *v <= u128::MAX {
            Some((*a + *v) as u128)
        } else {
            None
        }),
{
    <u128 as num::CheckedAdd>::checked_add(a, v)
}

/// Calls `num::CheckedSub::checked_sub` for `u128`, whose implementation
/// forwards to the primitive `u128::checked_sub`: the difference when it is
/// not negative, `None` otherwise.
#[verifier::external_body]
fn checked_sub_u128(a: &u128, v: &u128) -> (difference: Option<u128>)
    ensures
        difference == (if *a >= *v {
            Some((*a - *v) as u128)
        } else {
            None
        }),
{
    <u128 as num::CheckedSub>::checked_sub(a, v)
}

impl Scalar for u32 {
    open spec fn value(&self) -> nat {
        *self as nat
    }

    open spec fn max_value() -> nat {
        u32::MAX as nat
    }

    proof fn lemma_value_in_range(&self) {
    }

    fn zero() -> (z: Self) {
        zero_u32()
    }

    fn checked_add(&self, v: &Self) -> (sum: Option<Self>) {
        checked_add_u32(self, v)
    }
}

impl Counter for u32 {
    fn one() -> (o: Self) {
        one_u32()
    }
}

impl Scalar for u128 {
    open spec fn value(&self) -> nat {
        *self as nat
    }

    open spec fn max_value() -> nat {
        u128::MAX as nat
    }

    proof fn lemma_value_in_range(&self) {
    }

    fn zero() -> (z: Self) {
        zero_u128()
    }

    fn checked_add(&self, v: &Self) -> (sum: Option<Self>) {
        checked_add_u128(self, v)
    }
}

impl Amount for u128 {
    fn checked_sub(&self, v: &Self) -> (difference: Option<Self>) {
        checked_sub_u128(self, v)
    }

    fn is_zero(&self) -> (r: bool) {
        *self == zero_u128()
    }
}

} // verus!
