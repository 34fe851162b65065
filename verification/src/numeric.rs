//! The numbers that pallets count and account with.
//!
//! A pallet is written against a capability, not against a machine integer:
//! [`Counter`] for sequence numbers that only go up, [`Amount`] for quantities
//! that are added and subtracted with the bounds checked. Each capability
//! says what its operations mean on `value()`, the number that a value
//! stands for.

use vstd::prelude::*;

verus! {

/// A number that starts at zero and is stepped upwards.
pub trait Counter: Copy + Sized {
    /// The number that `self` stands for.
    spec fn value(self) -> nat;

    /// The largest number that the type can hold.
    spec fn limit() -> nat;

    /// No value lies above the limit.
    proof fn lemma_within_limit(self)
        ensures
            self.value() <= Self::limit(),
    ;

    /// The counter's starting value.
    fn zero() -> (r: Self)
        ensures
            r.value() == 0,
    ;

    /// A single step.
    fn one() -> (r: Self)
        ensures
            r.value() == 1,
    ;

    /// The counter advanced by `step`.
    fn plus(self, step: Self) -> (r: Self)
        requires
            self.value() + step.value() <= Self::limit(),
        ensures
            r.value() == self.value() + step.value(),
    ;
}

/// A quantity with checked addition and subtraction.
pub trait Amount: Copy + Sized {
    /// The number that `self` stands for.
    spec fn value(self) -> nat;

    /// The largest number that the type can hold.
    spec fn limit() -> nat;

    /// No value lies above the limit.
    proof fn lemma_within_limit(self)
        ensures
            self.value() <= Self::limit(),
    ;

    /// The empty quantity.
    fn zero() -> (r: Self)
        ensures
            r.value() == 0,
    ;

    /// `self + v`, or `None` where the sum lies above the limit.
    fn checked_add(&self, v: &Self) -> (r: Option<Self>)
        ensures
            match r {
                Some(sum) => sum.value() == self.value() + v.value(),
                None => self.value() + v.value() > Self::limit(),
            },
    ;

    /// `self - v`, or `None` where `v` is the larger.
    fn checked_sub(&self, v: &Self) -> (r: Option<Self>)
        ensures
            match r {
                Some(rest) => rest.value() + v.value() == self.value(),
                None => self.value() < v.value(),
            },
    ;
}

/// `num::Zero::zero` for `u32`: the additive identity, 0.
#[verifier::external_body]
fn u32_zero() -> (r: u32)
    ensures
        r == 0,
{
    num::Zero::zero()
}

/// `num::One::one` for `u32`: the multiplicative identity, 1.
#[verifier::external_body]
fn u32_one() -> (r: u32)
    ensures
        r == 1,
{
    num::One::one()
}

/// `num::Zero::zero` for `u128`: the additive identity, 0.
#[verifier::external_body]
fn u128_zero() -> (r: u128)
    ensures
        r == 0,
{
    num::Zero::zero()
}

/// `num::CheckedAdd::checked_add` for `u128`: the sum, or `None` where it
/// does not fit in a `u128`.
#[verifier::external_body]
fn u128_checked_add(a: &u128, b: &u128) -> (r: Option<u128>)
    ensures
        r == (if *a + *b <= u128::MAX {
            Some((*a + *b) as u128)
        } else {
            None
        }),
{
    num::CheckedAdd::checked_add(a, b)
}

/// `num::CheckedSub::checked_sub` for `u128`: the difference, or `None`
/// where it would lie below zero.
#[verifier::external_body]
fn u128_checked_sub(a: &u128, b: &u128) -> (r: Option<u128>)
    ensures
        r == (if *a >= *b {
            Some((*a - *b) as u128)
        } else {
            None
        }),
{
    num::CheckedSub::checked_sub(a, b)
}

impl Counter for u32 {
    open spec fn value(self) -> nat {
        self as nat
    }

    open spec fn limit() -> nat {
        u32::MAX as nat
    }

    proof fn lemma_within_limit(self) {
    }

    fn zero() -> (r: Self) {
        u32_zero()
    }

    fn one() -> (r: Self) {
        u32_one()
    }

    fn plus(self, step: Self) -> (r: Self) {
        self + step
    }
}

impl Amount for u128 {
    open spec fn value(self) -> nat {
        self as nat
    }

    open spec fn limit() -> nat {
        u128::MAX as nat
    }

    proof fn lemma_within_limit(self) {
    }

    fn zero() -> (r: Self) {
        u128_zero()
    }

    fn checked_add(&self, v: &Self) -> (r: Option<Self>) {
        u128_checked_add(self, v)
    }

    fn checked_sub(&self, v: &Self) -> (r: Option<Self>) {
        u128_checked_sub(self, v)
    }
}

} // verus!
