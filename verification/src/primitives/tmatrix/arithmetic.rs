//! "Mathy" methods and trait implementations / General matrix arithmetic
//!
//! The scalar `T` is any type with the operators of `std::ops`. What an
//! operator returns is stated through the spec functions that vstd attaches to
//! it (`add_spec`, `mul_spec`, ...); for a scalar whose operators vstd leaves
//! unspecified, a contract here only fixes the shape of the result.
use super::prelude::{
    entry, is_default, lemma_row_major_bound, lemma_row_major_order, one, spec_one, spec_zero,
    total_add, total_div, total_mul, zero, Matrix,
};
use crate::primitives::scalar::Elementary;
use crate::utils::typelevel_nums::{Nat, Val};
use std::marker::PhantomData;
use std::ops::{Add, Div, Mul, Neg, Sub};
use vstd::prelude::*;
use vstd::std_specs::cmp::{PartialOrdIs, PartialOrdSpec};
use vstd::std_specs::convert::FromSpec;
use vstd::std_specs::ops::{AddSpec, DivSpec, MulSpec, NegSpec, SubSpec};

verus! {

/// Every pair of entries at the same position can be added.
pub open spec fn add_elems_req<T: Add<Output = T>>(a: Seq<T>, b: Seq<T>) -> bool {
    forall|k: int| 0 <= k < a.len() && k < b.len() ==> (#[trigger] a[k]).add_req(b[k])
}

/// The entrywise `+` of two buffers of the same length.
pub open spec fn add_elems<T: Add<Output = T>>(a: Seq<T>, b: Seq<T>) -> Seq<T> {
    Seq::new(a.len(), |k: int| a[k].add_spec(b[k]))
}

/// Combine two buffers of the same length with `+`, entry by entry.
pub fn add_vecs<T: Copy + Add<Output = T>>(a: &Vec<T>, b: &Vec<T>) -> (r: Vec<T>)
    requires
        a@.len() == b@.len(),
        add_elems_req(a@, b@),
    ensures
        r@.len() == a@.len(),
        T::obeys_add_spec() ==> r@ == add_elems(a@, b@),
{
    let mut v: Vec<T> = Vec::with_capacity(a.len());
    let mut k: usize = 0;
    while k < a.len()
        invariant
            k <= a@.len(),
            a@.len() == b@.len(),
            add_elems_req(a@, b@),
            v@.len() == k,
            T::obeys_add_spec() ==> forall|x: int|
                0 <= x < k ==> #[trigger] v@[x] == a@[x].add_spec(b@[x]),
        decreases a@.len() - k,
    {
        v.push(a[k] + b[k]);
        k += 1;
    }
    assert(T::obeys_add_spec() ==> v@ =~= add_elems(a@, b@));
    v
}

impl<T: Copy + Add<Output = T>, M: Nat + Val, N: Nat + Val> vstd::std_specs::ops::AddSpecImpl for Matrix<T, M, N> {
    /// The result is stated by the `ensures` of the operator itself.
    open spec fn obeys_add_spec() -> bool {
        false
    }

    open spec fn add_req(self, rhs: Matrix<T, M, N>) -> bool {
        self.wf() && rhs.wf() && add_elems_req(self@, rhs@)
    }

    open spec fn add_spec(self, rhs: Matrix<T, M, N>) -> Matrix<T, M, N> {
        arbitrary()
    }
}

/// A + B
impl<T: Copy + Add<Output = T>, M: Nat + Val, N: Nat + Val> Add for Matrix<T, M, N> {
    type Output = Matrix<T, M, N>;

    fn add(self, other: Matrix<T, M, N>) -> (r: Self::Output)
        ensures
            r.wf(),
            T::obeys_add_spec() ==> r@ == add_elems(self@, other@),
    {
        Matrix::from(add_vecs(&self.data, &other.data))
    }
}

impl<'a, T: Copy + Add<Output = T>, M: Nat + Val, N: Nat + Val> vstd::std_specs::ops::AddSpecImpl<&'a Matrix<T, M, N>> for Matrix<T, M, N> {
    /// The result is stated by the `ensures` of the operator itself.
    open spec fn obeys_add_spec() -> bool {
        false
    }

    open spec fn add_req(self, rhs: &'a Matrix<T, M, N>) -> bool {
        self.wf() && rhs.wf() && add_elems_req(self@, rhs@)
    }

    open spec fn add_spec(self, rhs: &'a Matrix<T, M, N>) -> Matrix<T, M, N> {
        arbitrary()
    }
}

/// A + &B
impl<'a, T: Copy + Add<Output = T>, M: Nat + Val, N: Nat + Val> Add<&'a Matrix<T, M, N>> for Matrix<T, M, N> {
    type Output = Matrix<T, M, N>;

    fn add(self, other: &'a Matrix<T, M, N>) -> (r: Self::Output)
        ensures
            r.wf(),
            T::obeys_add_spec() ==> r@ == add_elems(self@, other@),
    {
        Matrix::from(add_vecs(&self.data, &other.data))
    }
}

impl<'a, T: Copy + Add<Output = T>, M: Nat + Val, N: Nat + Val> vstd::std_specs::ops::AddSpecImpl<Matrix<T, M, N>> for &'a Matrix<T, M, N> {
    /// The result is stated by the `ensures` of the operator itself.
    open spec fn obeys_add_spec() -> bool {
        false
    }

    open spec fn add_req(self, rhs: Matrix<T, M, N>) -> bool {
        self.wf() && rhs.wf() && add_elems_req(self@, rhs@)
    }

    open spec fn add_spec(self, rhs: Matrix<T, M, N>) -> Matrix<T, M, N> {
        arbitrary()
    }
}

/// &A + B
impl<'a, T: Copy + Add<Output = T>, M: Nat + Val, N: Nat + Val> Add<Matrix<T, M, N>> for &'a Matrix<T, M, N> {
    type Output = Matrix<T, M, N>;

    fn add(self, other: Matrix<T, M, N>) -> (r: Self::Output)
        ensures
            r.wf(),
            T::obeys_add_spec() ==> r@ == add_elems(self@, other@),
    {
        Matrix::from(add_vecs(&self.data, &other.data))
    }
}

impl<'a, T: Copy + Add<Output = T>, M: Nat + Val, N: Nat + Val> vstd::std_specs::ops::AddSpecImpl for &'a Matrix<T, M, N> {
    /// The result is stated by the `ensures` of the operator itself.
    open spec fn obeys_add_spec() -> bool {
        false
    }

    open spec fn add_req(self, rhs: &'a Matrix<T, M, N>) -> bool {
        self.wf() && rhs.wf() && add_elems_req(self@, rhs@)
    }

    open spec fn add_spec(self, rhs: &'a Matrix<T, M, N>) -> Matrix<T, M, N> {
        arbitrary()
    }
}

/// &A + &B
impl<'a, T: Copy + Add<Output = T>, M: Nat + Val, N: Nat + Val> Add for &'a Matrix<T, M, N> {
    type Output = Matrix<T, M, N>;

    fn add(self, other: &'a Matrix<T, M, N>) -> (r: Self::Output)
        ensures
            r.wf(),
            T::obeys_add_spec() ==> r@ == add_elems(self@, other@),
    {
        Matrix::from(add_vecs(&self.data, &other.data))
    }
}

/// Every pair of entries at the same position can be subtracted.
pub open spec fn sub_elems_req<T: Sub<Output = T>>(a: Seq<T>, b: Seq<T>) -> bool {
    forall|k: int| 0 <= k < a.len() && k < b.len() ==> (#[trigger] a[k]).sub_req(b[k])
}

/// The entrywise `-` of two buffers of the same length.
pub open spec fn sub_elems<T: Sub<Output = T>>(a: Seq<T>, b: Seq<T>) -> Seq<T> {
    Seq::new(a.len(), |k: int| a[k].sub_spec(b[k]))
}

/// Combine two buffers of the same length with `-`, entry by entry.
pub fn sub_vecs<T: Copy + Sub<Output = T>>(a: &Vec<T>, b: &Vec<T>) -> (r: Vec<T>)
    requires
        a@.len() == b@.len(),
        sub_elems_req(a@, b@),
    ensures
        r@.len() == a@.len(),
        T::obeys_sub_spec() ==> r@ == sub_elems(a@, b@),
{
    let mut v: Vec<T> = Vec::with_capacity(a.len());
    let mut k: usize = 0;
    while k < a.len()
        invariant
            k <= a@.len(),
            a@.len() == b@.len(),
            sub_elems_req(a@, b@),
            v@.len() == k,
            T::obeys_sub_spec() ==> forall|x: int|
                0 <= x < k ==> #[trigger] v@[x] == a@[x].sub_spec(b@[x]),
        decreases a@.len() - k,
    {
        v.push(a[k] - b[k]);
        k += 1;
    }
    assert(T::obeys_sub_spec() ==> v@ =~= sub_elems(a@, b@));
    v
}

impl<T: Copy + Sub<Output = T>, M: Nat + Val, N: Nat + Val> vstd::std_specs::ops::SubSpecImpl for Matrix<T, M, N> {
    /// The result is stated by the `ensures` of the operator itself.
    open spec fn obeys_sub_spec() -> bool {
        false
    }

    open spec fn sub_req(self, rhs: Matrix<T, M, N>) -> bool {
        self.wf() && rhs.wf() && sub_elems_req(self@, rhs@)
    }

    open spec fn sub_spec(self, rhs: Matrix<T, M, N>) -> Matrix<T, M, N> {
        arbitrary()
    }
}

/// A - B
impl<T: Copy + Sub<Output = T>, M: Nat + Val, N: Nat + Val> Sub for Matrix<T, M, N> {
    type Output = Matrix<T, M, N>;

    fn sub(self, other: Matrix<T, M, N>) -> (r: Self::Output)
        ensures
            r.wf(),
            T::obeys_sub_spec() ==> r@ == sub_elems(self@, other@),
    {
        Matrix::from(sub_vecs(&self.data, &other.data))
    }
}

impl<'a, T: Copy + Sub<Output = T>, M: Nat + Val, N: Nat + Val> vstd::std_specs::ops::SubSpecImpl<&'a Matrix<T, M, N>> for Matrix<T, M, N> {
    /// The result is stated by the `ensures` of the operator itself.
    open spec fn obeys_sub_spec() -> bool {
        false
    }

    open spec fn sub_req(self, rhs: &'a Matrix<T, M, N>) -> bool {
        self.wf() && rhs.wf() && sub_elems_req(self@, rhs@)
    }

    open spec fn sub_spec(self, rhs: &'a Matrix<T, M, N>) -> Matrix<T, M, N> {
        arbitrary()
    }
}

/// A - &B
impl<'a, T: Copy + Sub<Output = T>, M: Nat + Val, N: Nat + Val> Sub<&'a Matrix<T, M, N>> for Matrix<T, M, N> {
    type Output = Matrix<T, M, N>;

    fn sub(self, other: &'a Matrix<T, M, N>) -> (r: Self::Output)
        ensures
            r.wf(),
            T::obeys_sub_spec() ==> r@ == sub_elems(self@, other@),
    {
        Matrix::from(sub_vecs(&self.data, &other.data))
    }
}

impl<'a, T: Copy + Sub<Output = T>, M: Nat + Val, N: Nat + Val> vstd::std_specs::ops::SubSpecImpl<Matrix<T, M, N>> for &'a Matrix<T, M, N> {
    /// The result is stated by the `ensures` of the operator itself.
    open spec fn obeys_sub_spec() -> bool {
        false
    }

    open spec fn sub_req(self, rhs: Matrix<T, M, N>) -> bool {
        self.wf() && rhs.wf() && sub_elems_req(self@, rhs@)
    }

    open spec fn sub_spec(self, rhs: Matrix<T, M, N>) -> Matrix<T, M, N> {
        arbitrary()
    }
}

/// &A - B
impl<'a, T: Copy + Sub<Output = T>, M: Nat + Val, N: Nat + Val> Sub<Matrix<T, M, N>> for &'a Matrix<T, M, N> {
    type Output = Matrix<T, M, N>;

    fn sub(self, other: Matrix<T, M, N>) -> (r: Self::Output)
        ensures
            r.wf(),
            T::obeys_sub_spec() ==> r@ == sub_elems(self@, other@),
    {
        Matrix::from(sub_vecs(&self.data, &other.data))
    }
}

impl<'a, T: Copy + Sub<Output = T>, M: Nat + Val, N: Nat + Val> vstd::std_specs::ops::SubSpecImpl for &'a Matrix<T, M, N> {
    /// The result is stated by the `ensures` of the operator itself.
    open spec fn obeys_sub_spec() -> bool {
        false
    }

    open spec fn sub_req(self, rhs: &'a Matrix<T, M, N>) -> bool {
        self.wf() && rhs.wf() && sub_elems_req(self@, rhs@)
    }

    open spec fn sub_spec(self, rhs: &'a Matrix<T, M, N>) -> Matrix<T, M, N> {
        arbitrary()
    }
}

/// &A - &B
impl<'a, T: Copy + Sub<Output = T>, M: Nat + Val, N: Nat + Val> Sub for &'a Matrix<T, M, N> {
    type Output = Matrix<T, M, N>;

    fn sub(self, other: &'a Matrix<T, M, N>) -> (r: Self::Output)
        ensures
            r.wf(),
            T::obeys_sub_spec() ==> r@ == sub_elems(self@, other@),
    {
        Matrix::from(sub_vecs(&self.data, &other.data))
    }
}

/// Every entry can be negated.
pub open spec fn neg_elems_req<T: Neg<Output = T>>(a: Seq<T>) -> bool {
    forall|k: int| 0 <= k < a.len() ==> (#[trigger] a[k]).neg_req()
}

/// Every entry negated.
pub open spec fn neg_elems<T: Neg<Output = T>>(a: Seq<T>) -> Seq<T> {
    Seq::new(a.len(), |k: int| a[k].neg_spec())
}

/// Negate every entry of a buffer.
pub fn neg_vec<T: Copy + Neg<Output = T>>(a: &Vec<T>) -> (r: Vec<T>)
    requires
        neg_elems_req(a@),
    ensures
        r@.len() == a@.len(),
        T::obeys_neg_spec() ==> r@ == neg_elems(a@),
{
    let mut v: Vec<T> = Vec::with_capacity(a.len());
    let mut k: usize = 0;
    while k < a.len()
        invariant
            k <= a@.len(),
            neg_elems_req(a@),
            v@.len() == k,
            T::obeys_neg_spec() ==> forall|x: int| 0 <= x < k ==> #[trigger] v@[x] == a@[x].neg_spec(),
        decreases a@.len() - k,
    {
        v.push(a[k].neg());
        k += 1;
    }
    assert(T::obeys_neg_spec() ==> v@ =~= neg_elems(a@));
    v
}

impl<T: Copy + Neg<Output = T>, M: Nat + Val, N: Nat + Val> vstd::std_specs::ops::NegSpecImpl for Matrix<T, M, N> {
    /// The result is stated by the `ensures` of the operator itself.
    open spec fn obeys_neg_spec() -> bool {
        false
    }

    open spec fn neg_req(self) -> bool {
        self.wf() && neg_elems_req(self@)
    }

    open spec fn neg_spec(self) -> Matrix<T, M, N> {
        arbitrary()
    }
}

/// -A
impl<T: Copy + Neg<Output = T>, M: Nat + Val, N: Nat + Val> Neg for Matrix<T, M, N> {
    type Output = Matrix<T, M, N>;

    fn neg(self) -> (r: Self::Output)
        ensures
            r.wf(),
            T::obeys_neg_spec() ==> r@ == neg_elems(self@),
    {
        Matrix::from(neg_vec(&self.data))
    }
}

impl<'a, T: Copy + Neg<Output = T>, M: Nat + Val, N: Nat + Val> vstd::std_specs::ops::NegSpecImpl for &'a Matrix<T, M, N> {
    /// The result is stated by the `ensures` of the operator itself.
    open spec fn obeys_neg_spec() -> bool {
        false
    }

    open spec fn neg_req(self) -> bool {
        self.wf() && neg_elems_req(self@)
    }

    open spec fn neg_spec(self) -> Matrix<T, M, N> {
        arbitrary()
    }
}

/// -&A
impl<'a, T: Copy + Neg<Output = T>, M: Nat + Val, N: Nat + Val> Neg for &'a Matrix<T, M, N> {
    type Output = Matrix<T, M, N>;

    fn neg(self) -> (r: Self::Output)
        ensures
            r.wf(),
            T::obeys_neg_spec() ==> r@ == neg_elems(self@),
    {
        Matrix::from(neg_vec(&self.data))
    }
}

/// Every entry can be multiplied by `s`.
pub open spec fn mul_scalar_req<T: Mul<Output = T>>(a: Seq<T>, s: T) -> bool {
    forall|k: int| 0 <= k < a.len() ==> (#[trigger] a[k]).mul_req(s)
}

/// Every entry multiplied by `s`.
pub open spec fn mul_scalar<T: Mul<Output = T>>(a: Seq<T>, s: T) -> Seq<T> {
    Seq::new(a.len(), |k: int| a[k].mul_spec(s))
}

/// Apply `* s` to every entry of a buffer.
pub fn mul_vec_scalar<T: Copy + Mul<Output = T>>(a: &Vec<T>, s: T) -> (r: Vec<T>)
    requires
        mul_scalar_req(a@, s),
    ensures
        r@.len() == a@.len(),
        T::obeys_mul_spec() ==> r@ == mul_scalar(a@, s),
{
    let mut v: Vec<T> = Vec::with_capacity(a.len());
    let mut k: usize = 0;
    while k < a.len()
        invariant
            k <= a@.len(),
            mul_scalar_req(a@, s),
            v@.len() == k,
            T::obeys_mul_spec() ==> forall|x: int|
                0 <= x < k ==> #[trigger] v@[x] == a@[x].mul_spec(s),
        decreases a@.len() - k,
    {
        v.push(a[k] * s);
        k += 1;
    }
    assert(T::obeys_mul_spec() ==> v@ =~= mul_scalar(a@, s));
    v
}

impl<T: Copy + Mul<Output = T>, M: Nat + Val, N: Nat + Val> vstd::std_specs::ops::MulSpecImpl<T> for Matrix<T, M, N> {
    /// The result is stated by the `ensures` of the operator itself.
    open spec fn obeys_mul_spec() -> bool {
        false
    }

    open spec fn mul_req(self, rhs: T) -> bool {
        self.wf() && mul_scalar_req(self@, rhs)
    }

    open spec fn mul_spec(self, rhs: T) -> Matrix<T, M, N> {
        arbitrary()
    }
}

/// A * b
impl<T: Copy + Mul<Output = T>, M: Nat + Val, N: Nat + Val> Mul<T> for Matrix<T, M, N> {
    type Output = Matrix<T, M, N>;

    fn mul(self, other: T) -> (r: Self::Output)
        ensures
            r.wf(),
            T::obeys_mul_spec() ==> r@ == mul_scalar(self@, other),
    {
        Matrix::from(mul_vec_scalar(&self.data, other))
    }
}

impl<'a, T: Copy + Mul<Output = T>, M: Nat + Val, N: Nat + Val> vstd::std_specs::ops::MulSpecImpl<T> for &'a Matrix<T, M, N> {
    /// The result is stated by the `ensures` of the operator itself.
    open spec fn obeys_mul_spec() -> bool {
        false
    }

    open spec fn mul_req(self, rhs: T) -> bool {
        self.wf() && mul_scalar_req(self@, rhs)
    }

    open spec fn mul_spec(self, rhs: T) -> Matrix<T, M, N> {
        arbitrary()
    }
}

/// &A * b
impl<'a, T: Copy + Mul<Output = T>, M: Nat + Val, N: Nat + Val> Mul<T> for &'a Matrix<T, M, N> {
    type Output = Matrix<T, M, N>;

    fn mul(self, other: T) -> (r: Self::Output)
        ensures
            r.wf(),
            T::obeys_mul_spec() ==> r@ == mul_scalar(self@, other),
    {
        Matrix::from(mul_vec_scalar(&self.data, other))
    }
}

/// Every entry can be divided by `s`.
pub open spec fn div_scalar_req<T: Div<Output = T>>(a: Seq<T>, s: T) -> bool {
    forall|k: int| 0 <= k < a.len() ==> (#[trigger] a[k]).div_req(s)
}

/// Every entry divided by `s`.
pub open spec fn div_scalar<T: Div<Output = T>>(a: Seq<T>, s: T) -> Seq<T> {
    Seq::new(a.len(), |k: int| a[k].div_spec(s))
}

/// Apply `/ s` to every entry of a buffer.
pub fn div_vec_scalar<T: Copy + Div<Output = T>>(a: &Vec<T>, s: T) -> (r: Vec<T>)
    requires
        div_scalar_req(a@, s),
    ensures
        r@.len() == a@.len(),
        T::obeys_div_spec() ==> r@ == div_scalar(a@, s),
{
    let mut v: Vec<T> = Vec::with_capacity(a.len());
    let mut k: usize = 0;
    while k < a.len()
        invariant
            k <= a@.len(),
            div_scalar_req(a@, s),
            v@.len() == k,
            T::obeys_div_spec() ==> forall|x: int|
                0 <= x < k ==> #[trigger] v@[x] == a@[x].div_spec(s),
        decreases a@.len() - k,
    {
        v.push(a[k] / s);
        k += 1;
    }
    assert(T::obeys_div_spec() ==> v@ =~= div_scalar(a@, s));
    v
}

impl<T: Copy + Div<Output = T>, M: Nat + Val, N: Nat + Val> vstd::std_specs::ops::DivSpecImpl<T> for Matrix<T, M, N> {
    /// The result is stated by the `ensures` of the operator itself.
    open spec fn obeys_div_spec() -> bool {
        false
    }

    open spec fn div_req(self, rhs: T) -> bool {
        self.wf() && div_scalar_req(self@, rhs)
    }

    open spec fn div_spec(self, rhs: T) -> Matrix<T, M, N> {
        arbitrary()
    }
}

/// A / b
impl<T: Copy + Div<Output = T>, M: Nat + Val, N: Nat + Val> Div<T> for Matrix<T, M, N> {
    type Output = Matrix<T, M, N>;

    fn div(self, other: T) -> (r: Self::Output)
        ensures
            r.wf(),
            T::obeys_div_spec() ==> r@ == div_scalar(self@, other),
    {
        Matrix::from(div_vec_scalar(&self.data, other))
    }
}

impl<'a, T: Copy + Div<Output = T>, M: Nat + Val, N: Nat + Val> vstd::std_specs::ops::DivSpecImpl<T> for &'a Matrix<T, M, N> {
    /// The result is stated by the `ensures` of the operator itself.
    open spec fn obeys_div_spec() -> bool {
        false
    }

    open spec fn div_req(self, rhs: T) -> bool {
        self.wf() && div_scalar_req(self@, rhs)
    }

    open spec fn div_spec(self, rhs: T) -> Matrix<T, M, N> {
        arbitrary()
    }
}

/// &A / b
impl<'a, T: Copy + Div<Output = T>, M: Nat + Val, N: Nat + Val> Div<T> for &'a Matrix<T, M, N> {
    type Output = Matrix<T, M, N>;

    fn div(self, other: T) -> (r: Self::Output)
        ensures
            r.wf(),
            T::obeys_div_spec() ==> r@ == div_scalar(self@, other),
    {
        Matrix::from(div_vec_scalar(&self.data, other))
    }
}

/// The sum of the first `k` products of row `i` of `a` (rows of length `n`)
/// with column `j` of `b` (rows of length `nb`), added up from the left.
pub open spec fn dot<T: Add<Output = T> + Mul<Output = T>>(
    a: Seq<T>,
    b: Seq<T>,
    n: int,
    nb: int,
    i: int,
    j: int,
    k: int,
) -> T
    decreases k,
{
    if k <= 1 {
        entry(a, n, i, 0).mul_spec(entry(b, nb, 0, j))
    } else {
        dot(a, b, n, nb, i, j, k - 1).add_spec(
            entry(a, n, i, k - 1).mul_spec(entry(b, nb, k - 1, j)),
        )
    }
}

/// Each product and each partial sum of [`dot`] can be computed.
pub open spec fn dot_req<T: Add<Output = T> + Mul<Output = T>>(
    a: Seq<T>,
    b: Seq<T>,
    n: int,
    nb: int,
    i: int,
    j: int,
    k: int,
) -> bool
    decreases k,
{
    if k <= 0 {
        true
    } else if k == 1 {
        entry(a, n, i, 0).mul_req(entry(b, nb, 0, j))
    } else {
        &&& dot_req(a, b, n, nb, i, j, k - 1)
        &&& entry(a, n, i, k - 1).mul_req(entry(b, nb, k - 1, j))
        &&& dot(a, b, n, nb, i, j, k - 1).add_req(
            entry(a, n, i, k - 1).mul_spec(entry(b, nb, k - 1, j)),
        )
    }
}

/// What can be computed for `k` terms can be computed for fewer.
pub proof fn lemma_dot_req_prefix<T: Add<Output = T> + Mul<Output = T>>(
    a: Seq<T>,
    b: Seq<T>,
    n: int,
    nb: int,
    i: int,
    j: int,
    k: int,
    l: int,
)
    requires
        dot_req(a, b, n, nb, i, j, k),
        1 <= l <= k,
    ensures
        dot_req(a, b, n, nb, i, j, l),
    decreases k,
{
    if l < k {
        lemma_dot_req_prefix(a, b, n, nb, i, j, k - 1, l);
    }
}

/// The products of a matrix product can all be computed: the scalar's `+`
/// and `*` are total, or they are specified and no step goes beyond what
/// they allow.
pub open spec fn product_req<T: Add<Output = T> + Mul<Output = T>>(
    a: Seq<T>,
    b: Seq<T>,
    ma: int,
    n: int,
    nb: int,
) -> bool {
    n > 0 ==> (total_add::<T>() && total_mul::<T>()) || {
        &&& T::obeys_add_spec()
        &&& T::obeys_mul_spec()
        &&& forall|i: int, j: int|
            0 <= i < ma && 0 <= j < nb ==> #[trigger] dot_req(a, b, n, nb, i, j, n)
    }
}

/// `r` has the shape of the product of `a` (`ma` by `n`) and `b` (`n` by
/// `nb`) and, where the scalar's `+` and `*` are specified, its entries. With
/// no column in `a`, each entry of `r` is the scalar's default value.
pub open spec fn is_product<T: Add<Output = T> + Mul<Output = T> + Default>(
    r: Seq<T>,
    a: Seq<T>,
    b: Seq<T>,
    ma: int,
    n: int,
    nb: int,
) -> bool {
    &&& r.len() == ma * nb
    &&& n > 0 && T::obeys_add_spec() && T::obeys_mul_spec() ==> forall|i: int, j: int|
        0 <= i < ma && 0 <= j < nb ==> #[trigger] entry(r, nb, i, j) == dot(a, b, n, nb, i, j, n)
    &&& n <= 0 ==> forall|k: int| 0 <= k < r.len() ==> is_default(#[trigger] r[k])
}

/// One entry of a matrix product.
pub fn dot_entry<T: Copy + Add<Output = T> + Mul<Output = T>>(
    a: &Vec<T>,
    b: &Vec<T>,
    n: usize,
    nb: usize,
    i: usize,
    j: usize,
) -> (r: T)
    requires
        n > 0,
        j < nb,
        n * i + n <= a.len(),
        n * nb == b.len(),
        (total_add::<T>() && total_mul::<T>()) || (T::obeys_add_spec() && T::obeys_mul_spec()
            && dot_req(a@, b@, n as int, nb as int, i as int, j as int, n as int)),
    ensures
        T::obeys_add_spec() && T::obeys_mul_spec() ==> r == dot(
            a@,
            b@,
            n as int,
            nb as int,
            i as int,
            j as int,
            n as int,
        ),
{
    let ghost exact = T::obeys_add_spec() && T::obeys_mul_spec() && dot_req(
        a@,
        b@,
        n as int,
        nb as int,
        i as int,
        j as int,
        n as int,
    );
    proof {
        if exact {
            lemma_dot_req_prefix(a@, b@, n as int, nb as int, i as int, j as int, n as int, 1);
        }
        lemma_row_major_bound(n as int, nb as int, 0, j as int);
        assert(n * i >= 0) by (nonlinear_arith);
    }
    let mut acc = a[n * i] * b[j];
    let mut k: usize = 1;
    while k < n
        invariant
            1 <= k <= n,
            j < nb,
            n * i + n <= a.len(),
            n * nb == b.len(),
            (total_add::<T>() && total_mul::<T>()) || exact,
            exact == (T::obeys_add_spec() && T::obeys_mul_spec() && dot_req(
                a@,
                b@,
                n as int,
                nb as int,
                i as int,
                j as int,
                n as int,
            )),
            T::obeys_add_spec() && T::obeys_mul_spec() ==> acc == dot(
                a@,
                b@,
                n as int,
                nb as int,
                i as int,
                j as int,
                k as int,
            ),
        decreases n - k,
    {
        proof {
            if exact {
                lemma_dot_req_prefix(
                    a@,
                    b@,
                    n as int,
                    nb as int,
                    i as int,
                    j as int,
                    n as int,
                    k + 1,
                );
            }
            lemma_row_major_bound(n as int, nb as int, k as int, j as int);
            assert(n * i >= 0) by (nonlinear_arith);
        }
        acc = acc + a[n * i + k] * b[nb * k + j];
        k += 1;
    }
    acc
}

/// The product of `a` and `b`.
pub fn mat_mul<
    T: Copy + Default + Add<Output = T> + Mul<Output = T>,
    MA: Nat + Val,
    N: Nat + Val,
    NB: Nat + Val,
>(a: &Matrix<T, MA, N>, b: &Matrix<T, N, NB>) -> (r: Matrix<T, MA, NB>)
    requires
        a.wf(),
        b.wf(),
        Matrix::<T, MA, NB>::dims_fit(),
        product_req(
            a@,
            b@,
            MA::spec_val() as int,
            N::spec_val() as int,
            NB::spec_val() as int,
        ),
    ensures
        r.wf(),
        is_product(
            r@,
            a@,
            b@,
            MA::spec_val() as int,
            N::spec_val() as int,
            NB::spec_val() as int,
        ),
{
    let ma = MA::val();
    let n = N::val();
    let nb = NB::val();
    let mut v: Vec<T> = Vec::new();
    let mut i: usize = 0;
    while i < ma
        invariant
            a.wf(),
            b.wf(),
            Matrix::<T, MA, NB>::dims_fit(),
            product_req(a@, b@, ma as int, n as int, nb as int),
            ma == MA::spec_val(),
            n == N::spec_val(),
            nb == NB::spec_val(),
            i <= ma,
            v@.len() == nb * i,
            n > 0 && T::obeys_add_spec() && T::obeys_mul_spec() ==> forall|x: int, y: int|
                0 <= x < i && 0 <= y < nb ==> #[trigger] entry(v@, nb as int, x, y) == dot(
                    a@,
                    b@,
                    n as int,
                    nb as int,
                    x,
                    y,
                    n as int,
                ),
            n == 0 ==> forall|k: int| 0 <= k < v@.len() ==> is_default(#[trigger] v@[k]),
        decreases ma - i,
    {
        let mut j: usize = 0;
        while j < nb
            invariant
                a.wf(),
                b.wf(),
                Matrix::<T, MA, NB>::dims_fit(),
                product_req(a@, b@, ma as int, n as int, nb as int),
                ma == MA::spec_val(),
                n == N::spec_val(),
                nb == NB::spec_val(),
                i < ma,
                j <= nb,
                v@.len() == nb * i + j,
                n > 0 && T::obeys_add_spec() && T::obeys_mul_spec() ==> forall|x: int, y: int|
                    0 <= x && 0 <= y < nb && (x < i || (x == i && y < j)) ==> #[trigger] entry(
                        v@,
                        nb as int,
                        x,
                        y,
                    ) == dot(a@, b@, n as int, nb as int, x, y, n as int),
                n == 0 ==> forall|k: int| 0 <= k < v@.len() ==> is_default(#[trigger] v@[k]),
            decreases nb - j,
        {
            let ghost before = v@;
            proof {
                if n > 0 {
                    lemma_row_major_bound(ma as int, n as int, i as int, 0);
                }
                lemma_row_major_bound(ma as int, nb as int, i as int, j as int);
            }
            let e = if n > 0 {
                dot_entry(&a.data, &b.data, n, nb, i, j)
            } else {
                T::default()
            };
            v.push(e);
            proof {
                assert forall|x: int, y: int|
                    0 <= x && 0 <= y < nb && (x < i || (x == i && y < j + 1)) && n > 0
                        && T::obeys_add_spec() && T::obeys_mul_spec() implies #[trigger] entry(
                    v@,
                    nb as int,
                    x,
                    y,
                ) == dot(a@, b@, n as int, nb as int, x, y, n as int) by {
                    if x == i && y == j {
                    } else {
                        lemma_row_major_order(nb as int, x, y, i as int, j as int);
                        assert(entry(v@, nb as int, x, y) == entry(before, nb as int, x, y));
                    }
                }
            }
            j += 1;
        }
        proof {
            assert(nb * (i + 1) == nb * i + nb) by (nonlinear_arith);
        }
        i += 1;
    }
    proof {
        assert(nb * ma == ma * nb) by (nonlinear_arith);
    }
    Matrix::from(v)
}

impl<
    T: Copy + Default + Add<Output = T> + Mul<Output = T>,
    MA: Nat + Val,
    N: Nat + Val,
    NB: Nat + Val,
> vstd::std_specs::ops::MulSpecImpl<Matrix<T, N, NB>> for Matrix<T, MA, N> {
    /// The result is stated by the `ensures` of the operator itself.
    open spec fn obeys_mul_spec() -> bool {
        false
    }

    open spec fn mul_req(self, rhs: Matrix<T, N, NB>) -> bool {
        &&& self.wf()
        &&& rhs.wf()
        &&& Matrix::<T, MA, NB>::dims_fit()
        &&& product_req(
            self@,
            rhs@,
            MA::spec_val() as int,
            N::spec_val() as int,
            NB::spec_val() as int,
        )
    }

    open spec fn mul_spec(self, rhs: Matrix<T, N, NB>) -> Matrix<T, MA, NB> {
        arbitrary()
    }
}

/// Multiply a matrix A with another matrix B
/// A * B
impl<
    T: Copy + Default + Add<Output = T> + Mul<Output = T>,
    MA: Nat + Val,
    N: Nat + Val,
    NB: Nat + Val,
> Mul<Matrix<T, N, NB>> for Matrix<T, MA, N> {
    type Output = Matrix<T, MA, NB>;

    fn mul(self, other: Matrix<T, N, NB>) -> (r: Self::Output)
        ensures
            r.wf(),
            is_product(
                r@,
                self@,
                other@,
                MA::spec_val() as int,
                N::spec_val() as int,
                NB::spec_val() as int,
            ),
    {
        mat_mul(&self, &other)
    }
}

impl<
    'a, T: Copy + Default + Add<Output = T> + Mul<Output = T>,
    MA: Nat + Val,
    N: Nat + Val,
    NB: Nat + Val,
> vstd::std_specs::ops::MulSpecImpl<Matrix<T, N, NB>> for &'a Matrix<T, MA, N> {
    /// The result is stated by the `ensures` of the operator itself.
    open spec fn obeys_mul_spec() -> bool {
        false
    }

    open spec fn mul_req(self, rhs: Matrix<T, N, NB>) -> bool {
        &&& self.wf()
        &&& rhs.wf()
        &&& Matrix::<T, MA, NB>::dims_fit()
        &&& product_req(
            self@,
            rhs@,
            MA::spec_val() as int,
            N::spec_val() as int,
            NB::spec_val() as int,
        )
    }

    open spec fn mul_spec(self, rhs: Matrix<T, N, NB>) -> Matrix<T, MA, NB> {
        arbitrary()
    }
}

/// Multiply a matrix A with another matrix B
/// &A * B
impl<
    'a, T: Copy + Default + Add<Output = T> + Mul<Output = T>,
    MA: Nat + Val,
    N: Nat + Val,
    NB: Nat + Val,
> Mul<Matrix<T, N, NB>> for &'a Matrix<T, MA, N> {
    type Output = Matrix<T, MA, NB>;

    fn mul(self, other: Matrix<T, N, NB>) -> (r: Self::Output)
        ensures
            r.wf(),
            is_product(
                r@,
                self@,
                other@,
                MA::spec_val() as int,
                N::spec_val() as int,
                NB::spec_val() as int,
            ),
    {
        mat_mul(self, &other)
    }
}

impl<
    'a, T: Copy + Default + Add<Output = T> + Mul<Output = T>,
    MA: Nat + Val,
    N: Nat + Val,
    NB: Nat + Val,
> vstd::std_specs::ops::MulSpecImpl<&'a Matrix<T, N, NB>> for Matrix<T, MA, N> {
    /// The result is stated by the `ensures` of the operator itself.
    open spec fn obeys_mul_spec() -> bool {
        false
    }

    open spec fn mul_req(self, rhs: &'a Matrix<T, N, NB>) -> bool {
        &&& self.wf()
        &&& rhs.wf()
        &&& Matrix::<T, MA, NB>::dims_fit()
        &&& product_req(
            self@,
            rhs@,
            MA::spec_val() as int,
            N::spec_val() as int,
            NB::spec_val() as int,
        )
    }

    open spec fn mul_spec(self, rhs: &'a Matrix<T, N, NB>) -> Matrix<T, MA, NB> {
        arbitrary()
    }
}

/// Multiply a matrix A with another matrix B
/// A * &B
impl<
    'a, T: Copy + Default + Add<Output = T> + Mul<Output = T>,
    MA: Nat + Val,
    N: Nat + Val,
    NB: Nat + Val,
> Mul<&'a Matrix<T, N, NB>> for Matrix<T, MA, N> {
    type Output = Matrix<T, MA, NB>;

    fn mul(self, other: &'a Matrix<T, N, NB>) -> (r: Self::Output)
        ensures
            r.wf(),
            is_product(
                r@,
                self@,
                other@,
                MA::spec_val() as int,
                N::spec_val() as int,
                NB::spec_val() as int,
            ),
    {
        mat_mul(&self, other)
    }
}

impl<
    'a, T: Copy + Default + Add<Output = T> + Mul<Output = T>,
    MA: Nat + Val,
    N: Nat + Val,
    NB: Nat + Val,
> vstd::std_specs::ops::MulSpecImpl<&'a Matrix<T, N, NB>> for &'a Matrix<T, MA, N> {
    /// The result is stated by the `ensures` of the operator itself.
    open spec fn obeys_mul_spec() -> bool {
        false
    }

    open spec fn mul_req(self, rhs: &'a Matrix<T, N, NB>) -> bool {
        &&& self.wf()
        &&& rhs.wf()
        &&& Matrix::<T, MA, NB>::dims_fit()
        &&& product_req(
            self@,
            rhs@,
            MA::spec_val() as int,
            N::spec_val() as int,
            NB::spec_val() as int,
        )
    }

    open spec fn mul_spec(self, rhs: &'a Matrix<T, N, NB>) -> Matrix<T, MA, NB> {
        arbitrary()
    }
}

/// Multiply a matrix A with another matrix B
/// &A * &B
impl<
    'a, T: Copy + Default + Add<Output = T> + Mul<Output = T>,
    MA: Nat + Val,
    N: Nat + Val,
    NB: Nat + Val,
> Mul<&'a Matrix<T, N, NB>> for &'a Matrix<T, MA, N> {
    type Output = Matrix<T, MA, NB>;

    fn mul(self, other: &'a Matrix<T, N, NB>) -> (r: Self::Output)
        ensures
            r.wf(),
            is_product(
                r@,
                self@,
                other@,
                MA::spec_val() as int,
                N::spec_val() as int,
                NB::spec_val() as int,
            ),
    {
        mat_mul(self, other)
    }
}

/// `s` is the sum of the squares of the entries of `v`, added up from the
/// left (stated where the scalar's `+` and `*` are specified); of no entries,
/// the scalar's default value.
pub open spec fn is_norm_sq<T: Add<Output = T> + Mul<Output = T> + Default>(v: Seq<T>, s: T) -> bool {
    if v.len() > 0 {
        T::obeys_add_spec() && T::obeys_mul_spec() ==> s == dot(
            v,
            v,
            v.len() as int,
            1,
            0,
            0,
            v.len() as int,
        )
    } else {
        is_default(s)
    }
}

/// The squares of the entries of `v` and their partial sums can be computed.
pub open spec fn norm_sq_req<T: Add<Output = T> + Mul<Output = T>>(v: Seq<T>) -> bool {
    v.len() > 0 ==> (total_add::<T>() && total_mul::<T>()) || {
        &&& T::obeys_add_spec()
        &&& T::obeys_mul_spec()
        &&& dot_req(v, v, v.len() as int, 1, 0, 0, v.len() as int)
    }
}

impl<T, M> Matrix<T, M, crate::utils::typelevel_nums::N1> where
    T: Copy + Default + Add<Output = T> + Mul<Output = T>,
    M: Nat + Val,
 {
    /// The sum of the squares of the entries.
    pub fn norm_sq(&self) -> (r: T)
        requires
            norm_sq_req(self@),
        ensures
            is_norm_sq(self@, r),
    {
        let len = self.data.len();
        if len > 0 {
            proof {
                assert(len * 0 + len <= len && len * 1 == len) by (nonlinear_arith);
            }
            dot_entry(&self.data, &self.data, len, 1, 0, 0)
        } else {
            T::default()
        }
    }
}

impl<T, M> Matrix<T, M, crate::utils::typelevel_nums::N1> where
    T: Copy + Default + Add<Output = T> + Mul<Output = T> + Div<Output = T> + Elementary,
    M: Nat + Val,
 {
    /// Compute the magnitude/norm/length of the vector: what `sqrt` returns
    /// for the sum of the squares of the entries.
    pub fn mag(&self) -> (r: T)
        requires
            norm_sq_req(self@),
        ensures
            exists|s: T| is_norm_sq(self@, s) && call_ensures(T::sqrt, (s,), r),
    {
        let s = self.norm_sq();
        let r = s.sqrt();
        assert(is_norm_sq(self@, s) && call_ensures(T::sqrt, (s,), r));
        r
    }

    /// Normalize a vector such that you get a vector with same direction
    /// but a magnitude of 1: every entry divided by [`Self::mag`].
    pub fn unit(self) -> (r: Self)
        requires
            self.wf(),
            norm_sq_req(self@),
            total_div::<T>() || forall|s: T, m: T|
                is_norm_sq(self@, s) && call_ensures(T::sqrt, (s,), m) ==> div_scalar_req(
                    self@,
                    m,
                ),
        ensures
            r.wf(),
            exists|s: T, m: T|
                {
                    &&& is_norm_sq(self@, s)
                    &&& call_ensures(T::sqrt, (s,), m)
                    &&& T::obeys_div_spec() ==> r@ == div_scalar(self@, m)
                },
    {
        let s = self.norm_sq();
        let mag = s.sqrt();
        let r = Matrix::from(div_vec_scalar(&self.data, mag));
        assert(is_norm_sq(self@, s) && call_ensures(T::sqrt, (s,), mag) && (T::obeys_div_spec()
            ==> r@ == div_scalar(self@, mag)));
        r
    }
}

impl<T: Copy, M: Nat + Val, N: Nat + Val> Matrix<T, M, N> {
    /// The matrix mirrored at its diagonal: rows become columns.
    pub fn transpose(&self) -> (r: Matrix<T, N, M>)
        requires
            self.wf(),
        ensures
            r.wf(),
            forall|i: int, j: int|
                0 <= i < N::spec_val() && 0 <= j < M::spec_val() ==> #[trigger] r.at(i, j)
                    == self.at(j, i),
    {
        let m = M::val();
        let n = N::val();
        let mut v: Vec<T> = Vec::with_capacity(self.data.len());
        let mut i: usize = 0;
        while i < n
            invariant
                self.wf(),
                m == M::spec_val(),
                n == N::spec_val(),
                i <= n,
                v@.len() == m * i,
                forall|x: int, y: int|
                    0 <= x < i && 0 <= y < m ==> #[trigger] entry(v@, m as int, x, y) == entry(
                        self@,
                        n as int,
                        y,
                        x,
                    ),
            decreases n - i,
        {
            let mut j: usize = 0;
            while j < m
                invariant
                    self.wf(),
                    m == M::spec_val(),
                    n == N::spec_val(),
                    i < n,
                    j <= m,
                    v@.len() == m * i + j,
                    forall|x: int, y: int|
                        0 <= x && 0 <= y < m && (x < i || (x == i && y < j)) ==> #[trigger] entry(
                            v@,
                            m as int,
                            x,
                            y,
                        ) == entry(self@, n as int, y, x),
                decreases m - j,
            {
                let ghost before = v@;
                proof {
                    lemma_row_major_bound(m as int, n as int, j as int, i as int);
                }
                v.push(self.data[n * j + i]);
                proof {
                    assert forall|x: int, y: int|
                        0 <= x && 0 <= y < m && (x < i || (x == i && y < j + 1)) implies #[trigger] entry(
                        v@,
                        m as int,
                        x,
                        y,
                    ) == entry(self@, n as int, y, x) by {
                        if x == i && y == j {
                        } else {
                            lemma_row_major_order(m as int, x, y, i as int, j as int);
                            assert(entry(v@, m as int, x, y) == entry(before, m as int, x, y));
                        }
                    }
                }
                j += 1;
            }
            proof {
                assert(m * (i + 1) == m * i + m) by (nonlinear_arith);
            }
            i += 1;
        }
        proof {
            assert(m * n == n * m) by (nonlinear_arith);
        }
        Matrix::from(v)
    }
}

impl<T: Copy + Add<Output = T>, M: Nat + Val, N: Nat + Val> Matrix<T, M, N> {
    /// A += B
    pub fn add_assign(&mut self, other: Self)
        requires
            old(self).wf(),
            other.wf(),
            add_elems_req(old(self)@, other@),
        ensures
            final(self).wf(),
            T::obeys_add_spec() ==> final(self)@ == add_elems(old(self)@, other@),
    {
        self.data = add_vecs(&self.data, &other.data);
    }

    /// A += &B
    pub fn add_assign_ref(&mut self, other: &Self)
        requires
            old(self).wf(),
            other.wf(),
            add_elems_req(old(self)@, other@),
        ensures
            final(self).wf(),
            T::obeys_add_spec() ==> final(self)@ == add_elems(old(self)@, other@),
    {
        self.data = add_vecs(&self.data, &other.data);
    }
}

/// `s` holds the square matrix of side `n` with ones on the diagonal and
/// zeros elsewhere.
pub open spec fn is_identity<T: From<i8>>(s: Seq<T>, n: int) -> bool {
    &&& s.len() == n * n
    &&& forall|i: int, j: int|
        0 <= i < n && 0 <= j < n ==> #[trigger] entry(s, n, i, j) == if i == j {
            spec_one::<T>()
        } else {
            spec_zero::<T>()
        }
}

/// The entries of the four by four matrix with ones on the diagonal and
/// zeros elsewhere.
pub open spec fn identity_seq<T: From<i8>>() -> Seq<T> {
    let n = spec_zero::<T>();
    let o = spec_one::<T>();
    seq![o, n, n, n, n, o, n, n, n, n, o, n, n, n, n, o]
}

/// There is one four by four matrix with ones on the diagonal and zeros
/// elsewhere.
pub proof fn lemma_identity_seq<T: From<i8>>(s: Seq<T>)
    requires
        is_identity(s, 4),
    ensures
        s == identity_seq::<T>(),
{
    assert forall|k: int| 0 <= k < 16 implies s[k] == identity_seq::<T>()[k] by {
        let i = k / 4;
        let j = k % 4;
        assert(s[k] == entry(s, 4, i, j));
    }
    assert(s =~= identity_seq::<T>());
}

impl<T: Copy + From<i8>, M: Nat + Val> Matrix<T, M, M> {
    /// The matrix with ones on the diagonal and zeros elsewhere.
    pub fn identity() -> (r: Self)
        requires
            Self::dims_fit(),
        ensures
            r.wf(),
            T::obeys_from_spec() ==> is_identity(r@, M::spec_val() as int),
    {
        let m = M::val();
        let o: T = one();
        let z: T = zero();
        let mut v: Vec<T> = Vec::new();
        let mut i: usize = 0;
        while i < m
            invariant
                Self::dims_fit(),
                m == M::spec_val(),
                i <= m,
                v@.len() == m * i,
                T::obeys_from_spec() ==> o == spec_one::<T>() && z == spec_zero::<T>(),
                forall|x: int, y: int|
                    0 <= x < i && 0 <= y < m ==> #[trigger] entry(v@, m as int, x, y) == if x == y {
                        o
                    } else {
                        z
                    },
            decreases m - i,
        {
            let mut j: usize = 0;
            while j < m
                invariant
                    m == M::spec_val(),
                    i < m,
                    j <= m,
                    v@.len() == m * i + j,
                    forall|x: int, y: int|
                        0 <= x && 0 <= y < m && (x < i || (x == i && y < j)) ==> #[trigger] entry(
                            v@,
                            m as int,
                            x,
                            y,
                        ) == if x == y {
                            o
                        } else {
                            z
                        },
                decreases m - j,
            {
                let ghost before = v@;
                v.push(if i == j { o } else { z });
                proof {
                    assert forall|x: int, y: int|
                        0 <= x && 0 <= y < m && (x < i || (x == i && y < j + 1)) implies #[trigger] entry(
                        v@,
                        m as int,
                        x,
                        y,
                    ) == if x == y {
                        o
                    } else {
                        z
                    } by {
                        if x == i && y == j {
                        } else {
                            lemma_row_major_order(m as int, x, y, i as int, j as int);
                            assert(entry(v@, m as int, x, y) == entry(before, m as int, x, y));
                        }
                    }
                }
                j += 1;
            }
            proof {
                assert(m * (i + 1) == m * i + m) by (nonlinear_arith);
            }
            i += 1;
        }
        Matrix::from(v)
    }
}

/// The absolute value of a scalar: its negation where it is below zero.
pub open spec fn abs_spec<T: PartialOrd + Neg<Output = T> + From<i8>>(x: T) -> T {
    if x.is_lt(&spec_zero::<T>()) {
        x.neg_spec()
    } else {
        x
    }
}

/// Every entry that is below zero can be negated.
pub open spec fn abs_elems_req<T: PartialOrd + Neg<Output = T> + From<i8>>(a: Seq<T>) -> bool {
    forall|k: int|
        0 <= k < a.len() ==> (#[trigger] a[k]).neg_req() || (T::obeys_partial_cmp_spec()
            && T::obeys_from_spec() && !a[k].is_lt(&spec_zero::<T>()))
}

impl<T, M, N> Matrix<T, M, N> where
    T: Copy + PartialOrd + Neg<Output = T> + From<i8>,
    M: Nat + Val,
    N: Nat + Val,
 {
    /// Take absolute value of each element of the matrix
    pub fn abs(self) -> (r: Self)
        requires
            self.wf(),
            abs_elems_req(self@),
        ensures
            r.wf(),
            T::obeys_partial_cmp_spec() && T::obeys_from_spec() && T::obeys_neg_spec() ==> forall|
                k: int,
            | 0 <= k < self@.len() ==> #[trigger] r@[k] == abs_spec(self@[k]),
    {
        let z: T = zero();
        let mut v: Vec<T> = Vec::with_capacity(self.data.len());
        let mut k: usize = 0;
        while k < self.data.len()
            invariant
                k <= self@.len(),
                abs_elems_req(self@),
                T::obeys_from_spec() ==> z == spec_zero::<T>(),
                v@.len() == k,
                T::obeys_partial_cmp_spec() && T::obeys_from_spec() && T::obeys_neg_spec()
                    ==> forall|x: int| 0 <= x < k ==> #[trigger] v@[x] == abs_spec(self@[x]),
            decreases self@.len() - k,
        {
            let x = self.data[k];
            if x < z {
                v.push(x.neg());
            } else {
                v.push(x);
            }
            k += 1;
        }
        Matrix::from(v)
    }
}

} // verus!
