//! Equality up to a small error, for types built on inexact scalars.
use super::tmatrix::Matrix;
use crate::utils::typelevel_nums::{Nat, Val};
use super::tmatrix::prelude::{total_div, total_mul, total_neg, total_sub};
use std::ops::{Div, Mul, Neg, Sub};
use vstd::prelude::*;
use vstd::std_specs::cmp::{PartialOrdIs, PartialOrdSpec};
use vstd::std_specs::convert::FromSpec;
use vstd::std_specs::ops::{DivSpec, MulSpec, NegSpec, SubSpec};

verus! {

/// Trait that provides equivalence for floating-point based types
pub trait ApproxEq<Rhs = Self> {
    /// Whether [`Self::approx_eq`] returns what [`Self::approx_eq_spec`] says.
    spec fn obeys_approx_eq() -> bool;

    /// The comparison can be computed.
    spec fn approx_eq_req(self, other: Rhs) -> bool where Self: Sized;

    /// The two values are regarded as being equal.
    spec fn approx_eq_spec(self, other: Rhs) -> bool where Self: Sized;

    /// Whether the two values differ by less than the maximum allowed error.
    fn approx_eq(self, other: Rhs) -> (r: bool) where Self: Sized
        requires
            self.approx_eq_req(other),
        ensures
            Self::obeys_approx_eq() ==> r == self.approx_eq_spec(other),
    ;
}

/// The maximum allowed error: one ten-thousandth.
pub open spec fn spec_epsilon<T: Div<Output = T> + Mul<Output = T> + From<i8>>() -> T {
    T::from_spec(1i8).div_spec(T::from_spec(100i8).mul_spec(T::from_spec(100i8)))
}

/// The maximum allowed error can be computed.
pub open spec fn epsilon_req<T: Div<Output = T> + Mul<Output = T> + From<i8>>() -> bool {
    (total_mul::<T>() && total_div::<T>()) || {
        &&& T::obeys_from_spec()
        &&& T::obeys_mul_spec()
        &&& T::from_spec(100i8).mul_req(T::from_spec(100i8))
        &&& T::from_spec(1i8).div_req(T::from_spec(100i8).mul_spec(T::from_spec(100i8)))
    }
}

/// The distance of two scalars: their difference, negated where it is below
/// zero.
pub open spec fn distance<T: Sub<Output = T> + Neg<Output = T> + PartialOrd + From<i8>>(
    a: T,
    b: T,
) -> T {
    let d = a.sub_spec(b);
    if d.is_lt(&T::from_spec(0i8)) {
        d.neg_spec()
    } else {
        d
    }
}

/// The maximum allowed error: one ten-thousandth.
#[verifier::when_used_as_spec(spec_epsilon)]
pub fn epsilon<T: Div<Output = T> + Mul<Output = T> + From<i8>>() -> (r: T)
    requires
        epsilon_req::<T>(),
    ensures
        T::obeys_from_spec() && T::obeys_mul_spec() && T::obeys_div_spec() ==> r
            == spec_epsilon::<T>(),
{
    T::from(1i8) / (T::from(100i8) * T::from(100i8))
}

impl<T> ApproxEq for T where
    T: Copy + Sub<Output = T> + Div<Output = T> + Mul<Output = T> + Neg<Output = T> + PartialOrd + From<
        i8,
    >,
 {
    open spec fn obeys_approx_eq() -> bool {
        &&& T::obeys_sub_spec()
        &&& T::obeys_div_spec()
        &&& T::obeys_mul_spec()
        &&& T::obeys_neg_spec()
        &&& T::obeys_partial_cmp_spec()
        &&& T::obeys_from_spec()
    }

    open spec fn approx_eq_req(self, other: T) -> bool {
        &&& epsilon_req::<T>()
        &&& (total_sub::<T>() && total_neg::<T>()) || {
            &&& Self::obeys_approx_eq()
            &&& self.sub_req(other)
            &&& self.sub_spec(other).is_lt(&T::from_spec(0i8)) ==> self.sub_spec(other).neg_req()
        }
    }

    open spec fn approx_eq_spec(self, other: T) -> bool {
        distance(self, other).is_lt(&spec_epsilon::<T>())
    }

    fn approx_eq(self, other: T) -> (r: bool) {
        let d = self - other;
        let z = T::from(0i8);
        let dist = if d < z {
            d.neg()
        } else {
            d
        };
        dist < epsilon()
    }
}

/// Two buffers agree, entry by entry, as far as both reach.
pub open spec fn approx_eq_elems<T: ApproxEq>(a: Seq<T>, b: Seq<T>) -> bool {
    forall|k: int| 0 <= k < a.len() && k < b.len() ==> (#[trigger] a[k]).approx_eq_spec(b[k])
}

impl<'a, T: ApproxEq + Copy, M: Nat + Val, N: Nat + Val> ApproxEq for &'a Matrix<T, M, N> {
    open spec fn obeys_approx_eq() -> bool {
        T::obeys_approx_eq()
    }

    open spec fn approx_eq_req(self, other: &'a Matrix<T, M, N>) -> bool {
        forall|k: int|
            0 <= k < self@.len() && k < other@.len() ==> (#[trigger] self@[k]).approx_eq_req(
                other@[k],
            )
    }

    open spec fn approx_eq_spec(self, other: &'a Matrix<T, M, N>) -> bool {
        approx_eq_elems(self@, other@)
    }

    fn approx_eq(self, other: &'a Matrix<T, M, N>) -> (r: bool) {
        let mut k: usize = 0;
        while k < self.data.len() && k < other.data.len()
            invariant
                self.approx_eq_req(other),
                T::obeys_approx_eq() ==> forall|x: int|
                    0 <= x < k ==> (#[trigger] self@[x]).approx_eq_spec(other@[x]),
            decreases self@.len() - k,
        {
            if !self.data[k].approx_eq(other.data[k]) {
                return false;
            }
            k += 1;
        }
        true
    }
}

} // verus!
