//! What a number type has to offer to serve as the scalar of a scene.
use super::tmatrix::prelude::{total_add, total_div, total_mul, total_neg, total_sub};
use std::ops::{Add, Div, Mul, Neg, Rem, Sub};
use vstd::prelude::*;
use vstd::std_specs::cmp::PartialOrdSpec;
use vstd::std_specs::convert::FromSpec;
use vstd::std_specs::ops::{AddSpec, DivSpec, MulSpec, NegSpec, RemSpec, SubSpec};

verus! {

/// The functions beyond the four operators that rendering needs. Nothing is
/// stated of what they return: a contract speaks of their results only as
/// "what `sqrt` returned".
pub trait Elementary: Sized {
    /// The square root.
    fn sqrt(self) -> Self;

    /// The sine of an angle in radians.
    fn sin(self) -> Self;

    /// The cosine of an angle in radians.
    fn cos(self) -> Self;

    /// The tangent of an angle in radians.
    fn tan(self) -> Self;

    /// The number raised to the power `n`.
    fn powf(self, n: Self) -> Self;

    /// The largest whole number that is not above the number.
    fn floor(self) -> Self;

    /// The nearest whole number as a machine integer, zero for what lies
    /// below zero.
    fn round_to_usize(self) -> usize;

    /// The scalar nearest to a machine integer.
    fn from_usize(n: usize) -> Self;
}

/// A scalar of a scene: a copyable number with the four operators, negation,
/// an order, small integer constants and the elementary functions.
pub trait Scalar: Copy + Default + PartialOrd + From<i8> + Add<Output = Self> + Sub<Output = Self> + Mul<
    Output = Self,
> + Div<Output = Self> + Rem<Output = Self> + Neg<Output = Self> + Elementary {

}

impl<T> Scalar for T where
    T: Copy + Default + PartialOrd + From<i8> + Add<Output = T> + Sub<Output = T> + Mul<Output = T> + Div<
        Output = T,
    > + Rem<Output = T> + Neg<Output = T> + Elementary,
 {
}

/// The remainder of any scalar by any other can be taken.
pub open spec fn total_rem<T: Rem<Output = T>>() -> bool {
    forall|a: T, b: T| #[trigger] a.rem_req(b)
}

/// Every operator of the scalar can be applied to any operands, as those of
/// floating point numbers can.
pub open spec fn total_field<T: Scalar>() -> bool {
    &&& total_add::<T>()
    &&& total_sub::<T>()
    &&& total_mul::<T>()
    &&& total_div::<T>()
    &&& total_rem::<T>()
    &&& total_neg::<T>()
}

/// The comparisons of the scalar are specified.
pub open spec fn obeys_order<T: PartialOrd>() -> bool {
    T::obeys_partial_cmp_spec()
}

/// Every operator, comparison and constant of the scalar is specified.
pub open spec fn obeys_field<T: Scalar>() -> bool {
    &&& T::obeys_add_spec()
    &&& T::obeys_sub_spec()
    &&& T::obeys_mul_spec()
    &&& T::obeys_div_spec()
    &&& T::obeys_rem_spec()
    &&& T::obeys_neg_spec()
    &&& obeys_order::<T>()
    &&& T::obeys_from_spec()
}

} // verus!
