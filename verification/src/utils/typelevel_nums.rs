//! Natural numbers at the type level, in Peano style.
//!
//! A number is either [`N0`] or the successor [`Succ`] of another number.
//! [`Val`] brings a type-level number down to a `usize`; the traits [`NatAdd`],
//! [`Greater`], [`NatMul`], [`NatSub`] and [`Pow`] compute on the types themselves.
use std::marker::PhantomData;
use vstd::prelude::*;

verus! {

/// The mathematical set N (zero included).
pub trait Nat {

}

/// The natural numbers without zero.
pub trait NonZero {

}

/// Zero
#[derive(Copy, Clone, Debug, PartialEq, PartialOrd)]
pub struct N0;

/// Successor of a natural number
#[derive(Debug, PartialEq, PartialOrd)]
pub struct Succ<N: Nat> {
    _marker: PhantomData<N>,
}

impl<N: Nat> Clone for Succ<N> {
    fn clone(&self) -> (r: Self)
        ensures
            r == *self,
    {
        Succ { _marker: PhantomData }
    }
}

impl<N: Nat> Copy for Succ<N> {

}

impl Nat for N0 {

}

impl<N: Nat> Nat for Succ<N> {

}

impl<N: Nat> NonZero for Succ<N> {

}

pub type N1 = Succ<N0>;

pub type N2 = Succ<N1>;

pub type N3 = Succ<N2>;

pub type N4 = Succ<N3>;

pub type N5 = Succ<N4>;

pub type N6 = Succ<N5>;

pub type N7 = Succ<N6>;

pub type N8 = Succ<N7>;

pub type N9 = Succ<N8>;

pub type N10 = Succ<N9>;

pub type N20 = <N10 as NatMul<N2>>::Output;

pub type N30 = <N10 as NatMul<N3>>::Output;

pub type N40 = <N10 as NatMul<N4>>::Output;

pub type N50 = <N10 as NatMul<N5>>::Output;

pub type N60 = <N10 as NatMul<N6>>::Output;

pub type N70 = <N10 as NatMul<N7>>::Output;

pub type N80 = <N10 as NatMul<N8>>::Output;

pub type N90 = <N10 as NatMul<N9>>::Output;

pub type N100 = <N10 as NatMul<N10>>::Output;

pub type N16 = <N2 as Pow<N4>>::Output;

pub type N32 = <N16 as NatMul<N2>>::Output;

pub type N64 = <N32 as NatMul<N2>>::Output;

/// Extract the value-level value of a type
pub trait Val {
    /// The number that the type stands for.
    spec fn spec_val() -> nat;

    /// The number that the type stands for, as a machine integer.
    fn val() -> (r: usize)
        requires
            Self::spec_val() <= usize::MAX,
        ensures
            r == Self::spec_val(),
    ;
}

impl Val for N0 {
    open spec fn spec_val() -> nat {
        0
    }

    fn val() -> (r: usize) {
        0
    }
}

impl<N: Nat + Val> Val for Succ<N> {
    open spec fn spec_val() -> nat {
        N::spec_val() + 1
    }

    fn val() -> (r: usize) {
        N::val() + 1
    }
}

/// Calculate Lhs + Rhs for any implementation for type Lhs
pub trait NatAdd<Rhs = Self> {
    type Output;
}

impl<Rhs: Nat> NatAdd<Rhs> for N0 {
    type Output = Rhs;
}

impl<Rhs, Lhs> NatAdd<Rhs> for Succ<Lhs> where
    Rhs: Nat + NatAdd<Lhs>,
    Lhs: Nat,
    <Rhs as NatAdd<Lhs>>::Output: Nat,
 {
    type Output = Succ<<Rhs as NatAdd<Lhs>>::Output>;
}

/// Comparison of Rhs and whatever type it's implemented for;
/// yields the bigger of both of the types
pub trait Greater<Rhs> {
    type Output;
}

impl<Rhs: Nat + NonZero> Greater<Rhs> for N0 {
    type Output = Rhs;
}

impl<Rhs: Nat + NonZero> Greater<N0> for Rhs {
    type Output = Rhs;
}

impl<Rhs, Lhs> Greater<Succ<Rhs>> for Succ<Lhs> where
    Rhs: Nat,
    Lhs: Nat + Greater<Rhs>,
    <Lhs as Greater<Rhs>>::Output: Nat,
 {
    type Output = Succ<<Lhs as Greater<Rhs>>::Output>;
}

/// Calculate Lhs * Rhs for any implementation for type Lhs
pub trait NatMul<Rhs = Self> {
    type Output;
}

impl<Rhs: Nat + NonZero> NatMul<Rhs> for N0 {
    type Output = N0;
}

impl<Rhs: Nat + NonZero> NatMul<N0> for Rhs {
    type Output = N0;
}

impl NatMul for N0 {
    type Output = N0;
}

impl<Rhs, Lhs> NatMul<Succ<Rhs>> for Lhs where
    Lhs: Nat + NonZero + NatMul<Rhs> + NatAdd<<Lhs as NatMul<Rhs>>::Output>,
    Rhs: Nat,
    <Lhs as NatMul<Rhs>>::Output: Nat,
    <Lhs as NatAdd<<Lhs as NatMul<Rhs>>::Output>>::Output: Nat,
 {
    type Output = <Lhs as NatAdd<<Lhs as NatMul<Rhs>>::Output>>::Output;
}

/// Calculate Lhs - Rhs for any implementation for type Lhs
pub trait NatSub<Rhs = Self> {
    type Output;
}

impl<Lhs: Nat> NatSub<N0> for Lhs {
    type Output = Lhs;
}

impl<Rhs, Lhs> NatSub<Succ<Rhs>> for Succ<Lhs> where
    Rhs: Nat,
    Lhs: Nat + NonZero + NatSub<Rhs>,
    <Lhs as NatSub<Rhs>>::Output: Nat,
 {
    type Output = <Lhs as NatSub<Rhs>>::Output;
}

/// Calculate Lhs**Rhs for any type Lhs
pub trait Pow<Rhs> {
    type Output;
}

impl<Lhs: Nat + NonZero> Pow<N0> for Lhs {
    type Output = N1;
}

impl<Rhs: Nat + NonZero> Pow<Rhs> for N0 {
    type Output = N0;
}

impl<Lhs, Rhs> Pow<Succ<Rhs>> for Lhs where
    Lhs: Nat + NonZero + Pow<Rhs> + NatMul<<Lhs as Pow<Rhs>>::Output>,
    Rhs: Nat,
    <Lhs as Pow<Rhs>>::Output: Nat,
    <Lhs as NatMul<<Lhs as Pow<Rhs>>::Output>>::Output: Nat,
 {
    type Output = <Lhs as NatMul<<Lhs as Pow<Rhs>>::Output>>::Output;
}

} // verus!
