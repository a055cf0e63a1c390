//! Struct definition, constructors and the basic vocabulary of contracts.
use crate::utils::typelevel_nums::{Nat, Val};
use std::marker::PhantomData;
use vstd::prelude::*;
use std::ops::{Add, Div, Mul, Neg, Sub};
use vstd::std_specs::convert::FromSpec;
use vstd::std_specs::ops::{AddSpec, DivSpec, MulSpec, NegSpec, SubSpec};

verus! {

/// Matrix MxN with internal representation in row major order
/// e.g. 4x3
/// 1 2 3
/// 4 5 6
/// 7 8 9
/// 8 7 6
#[derive(Debug, PartialEq, PartialOrd)]
pub struct Matrix<T, M: Nat, N: Nat> {
    pub _m: PhantomData<M>,
    pub _n: PhantomData<N>,
    pub data: Vec<T>,
}

impl<T, M: Nat, N: Nat> View for Matrix<T, M, N> {
    type V = Seq<T>;

    /// The entries, row after row.
    open spec fn view(&self) -> Seq<T> {
        self.data@
    }
}

/// `d` is a value that `T::default()` may return.
pub open spec fn is_default<T: Default>(d: T) -> bool {
    call_ensures(T::default, (), d)
}

/// Every entry of `s` is a clone of `d`.
pub open spec fn all_cloned_from<T: Clone>(s: Seq<T>, d: T) -> bool {
    forall|k: int| 0 <= k < s.len() ==> cloned(d, #[trigger] s[k])
}

/// The entry in row `i` and column `j` of a row major buffer whose rows are
/// `cols` long.
pub open spec fn entry<T>(s: Seq<T>, cols: int, i: int, j: int) -> T {
    s[cols * i + j]
}

/// Any two scalars can be added.
pub open spec fn total_add<T: Add<Output = T>>() -> bool {
    forall|a: T, b: T| #[trigger] a.add_req(b)
}

/// Any scalar can be subtracted from any other.
pub open spec fn total_sub<T: Sub<Output = T>>() -> bool {
    forall|a: T, b: T| #[trigger] a.sub_req(b)
}

/// Any two scalars can be multiplied.
pub open spec fn total_mul<T: Mul<Output = T>>() -> bool {
    forall|a: T, b: T| #[trigger] a.mul_req(b)
}

/// Any scalar can be divided by any other.
pub open spec fn total_div<T: Div<Output = T>>() -> bool {
    forall|a: T, b: T| #[trigger] a.div_req(b)
}

/// Any scalar can be negated.
pub open spec fn total_neg<T: Neg<Output = T>>() -> bool {
    forall|a: T| #[trigger] a.neg_req()
}

/// The scalar that stands for the number zero.
pub open spec fn spec_zero<T: From<i8>>() -> T {
    T::from_spec(0i8)
}

/// The scalar that stands for the number one.
pub open spec fn spec_one<T: From<i8>>() -> T {
    T::from_spec(1i8)
}

/// The scalar that stands for the number zero.
#[verifier::when_used_as_spec(spec_zero)]
pub fn zero<T: From<i8>>() -> (r: T)
    ensures
        T::obeys_from_spec() ==> r == spec_zero::<T>(),
{
    T::from(0i8)
}

/// The scalar that stands for the number one.
#[verifier::when_used_as_spec(spec_one)]
pub fn one<T: From<i8>>() -> (r: T)
    ensures
        T::obeys_from_spec() ==> r == spec_one::<T>(),
{
    T::from(1i8)
}

/// In row major order, an earlier cell has a smaller index.
pub proof fn lemma_row_major_order(cols: int, i: int, j: int, ci: int, cj: int)
    by (nonlinear_arith)
    requires
        0 <= i,
        0 <= j < cols,
        0 <= cj <= cols,
        i < ci || (i == ci && j < cj),
    ensures
        0 <= cols * i + j < cols * ci + cj,
{
}

/// An index below `m * n` for every row below `m` and column below `n`.
pub proof fn lemma_row_major_bound(m: int, n: int, i: int, j: int)
    by (nonlinear_arith)
    requires
        0 <= i < m,
        0 <= j < n,
    ensures
        0 <= n * i + j < m * n,
        n * i + n <= m * n,
{
}

impl<T, M: Nat + Val, N: Nat + Val> Matrix<T, M, N> {
    /// The dimensions and the number of entries fit in a machine word.
    pub open spec fn dims_fit() -> bool {
        &&& M::spec_val() <= usize::MAX
        &&& N::spec_val() <= usize::MAX
        &&& M::spec_val() * N::spec_val() <= usize::MAX
    }

    /// The buffer holds exactly one entry per cell.
    pub open spec fn wf(&self) -> bool {
        &&& Self::dims_fit()
        &&& self.data@.len() == M::spec_val() * N::spec_val()
    }

    /// The entry in row `i` and column `j`.
    pub open spec fn at(&self, i: int, j: int) -> T {
        entry(self.data@, N::spec_val() as int, i, j)
    }

    /// Wrap a buffer that holds the matrix in row major order.
    pub fn from(v: Vec<T>) -> (r: Self)
        requires
            Self::dims_fit(),
            v@.len() == M::spec_val() * N::spec_val(),
        ensures
            r.wf(),
            r.data == v,
    {
        Matrix { data: v, _m: PhantomData, _n: PhantomData }
    }

    /// Create a new matrix with an empty buffer
    pub fn new_uninitialized() -> (r: Self)
        ensures
            r@ == Seq::<T>::empty(),
    {
        Matrix { data: Vec::new(), _m: PhantomData, _n: PhantomData }
    }

    /// Height of the matrix
    pub fn height(&self) -> (r: usize)
        requires
            M::spec_val() <= usize::MAX,
        ensures
            r == M::spec_val(),
    {
        M::val()
    }

    /// width of the matrix
    pub fn width(&self) -> (r: usize)
        requires
            N::spec_val() <= usize::MAX,
        ensures
            r == N::spec_val(),
    {
        N::val()
    }
}

impl<T: Default + Clone, M: Nat + Val, N: Nat + Val> Matrix<T, M, N> {
    /// A matrix whose every entry is a clone of the scalar's default value.
    pub fn new() -> (r: Self)
        requires
            Self::dims_fit(),
        ensures
            r.wf(),
            exists|d: T| is_default(d) && all_cloned_from(r@, d),
    {
        let d: T = Default::default();
        let r = Matrix { data: vec![d; M::val() * N::val()], _m: PhantomData, _n: PhantomData };
        assert(is_default(d) && all_cloned_from(r@, d));
        r
    }
}

impl<T: Clone, M: Nat, N: Nat> Clone for Matrix<T, M, N> {
    fn clone(&self) -> (r: Self)
        ensures
            r@.len() == self@.len(),
            forall|k: int| 0 <= k < self@.len() ==> cloned(#[trigger] self@[k], r@[k]),
    {
        Matrix { data: self.data.clone(), _m: PhantomData, _n: PhantomData }
    }
}

} // verus!
