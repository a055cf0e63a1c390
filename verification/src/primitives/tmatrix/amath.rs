//! A bit more advanced math operations
use super::prelude::{
    entry, lemma_row_major_bound, lemma_row_major_order, one, spec_one, spec_zero, total_add,
    total_div, total_mul, total_neg, total_sub, zero, Matrix,
};
use crate::utils::typelevel_nums::{Nat, Succ, Val, N1, N2, N3, N4};
use std::ops::{Add, Div, Mul, Neg, Sub};
use vstd::arithmetic::div_mod::lemma_fundamental_div_mod_converse;
use vstd::prelude::*;
use super::arithmetic::{div_scalar, div_scalar_req, div_vec_scalar};
use vstd::std_specs::cmp::PartialEqSpec;
use vstd::std_specs::convert::FromSpec;
use vstd::std_specs::ops::{AddSpec, DivSpec, MulSpec, NegSpec, SubSpec};

verus! {

/// A row major buffer with rows of length `cols`, without its row `i`.
pub open spec fn remove_row_seq<T>(s: Seq<T>, cols: int, i: int) -> Seq<T> {
    Seq::new(
        (s.len() - cols) as nat,
        |k: int|
            if k < cols * i {
                s[k]
            } else {
                s[k + cols]
            },
    )
}

/// A row major buffer with rows of length `cols`, without its column `j`.
pub open spec fn remove_col_seq<T>(s: Seq<T>, cols: int, j: int) -> Seq<T> {
    Seq::new(
        (s.len() - s.len() as int / cols) as nat,
        |k: int|
            s[k + k / (cols - 1) + if k % (cols - 1) < j {
                0int
            } else {
                1int
            }],
    )
}

/// A square buffer of side `n` without its row `i` and its column `j`.
pub open spec fn minor_seq<T>(s: Seq<T>, n: int, i: int, j: int) -> Seq<T> {
    remove_col_seq(remove_row_seq(s, n, i), n, j)
}

/// `m` rows of `n` entries are `m` times `n` entries, and that many divided
/// by `n` are `m`.
pub proof fn lemma_rows_of(m: int, n: int)
    by (nonlinear_arith)
    requires
        0 <= m,
        0 < n,
    ensures
        (m * n) / n == m,
        m * n - m == m * (n - 1),
        (m + 1) * n == m * n + n,
{
}

impl<T, M, N> Matrix<T, Succ<M>, N> where T: Copy, M: Nat + Val, N: Nat + Val {
    /// Remove the i'th row. With no such row, all entries are kept.
    pub fn remove_row(&self, i: usize) -> (r: Matrix<T, M, N>)
        requires
            self.wf(),
        ensures
            i <= M::spec_val() ==> r.wf() && r@ == remove_row_seq(
                self@,
                N::spec_val() as int,
                i as int,
            ),
            i > M::spec_val() ==> r@ == self@,
    {
        let n = N::val();
        let len = self.data.len();
        let rows = M::val() + 1;
        let mut v: Vec<T> = Vec::with_capacity(len);
        proof {
            let m1 = M::spec_val() + 1;
            if i < m1 {
                assert(0 <= n * i && n * i + n <= m1 * n) by (nonlinear_arith)
                    requires
                        0 <= i < m1,
                        0 <= n,
                ;
            }
            assert(m1 * n - n == M::spec_val() * n) by (nonlinear_arith)
                requires
                    m1 == M::spec_val() + 1,
            ;
        }
        let (first, second) = if i < rows {
            (n * i, n * i + n)
        } else {
            (len, len)
        };
        let mut k: usize = 0;
        while k < first
            invariant
                k <= first <= len,
                len == self@.len(),
                v@ == self@.subrange(0, k as int),
            decreases first - k,
        {
            v.push(self.data[k]);
            assert(v@ =~= self@.subrange(0, k + 1));
            k += 1;
        }
        let mut k: usize = second;
        while k < len
            invariant
                first <= second <= k <= len,
                len == self@.len(),
                v@ == self@.subrange(0, first as int) + self@.subrange(second as int, k as int),
            decreases len - k,
        {
            v.push(self.data[k]);
            assert(v@ =~= self@.subrange(0, first as int) + self@.subrange(
                second as int,
                k + 1,
            ));
            k += 1;
        }
        let mut m = Matrix::new_uninitialized();
        m.data = v;
        proof {
            if i <= M::spec_val() {
                assert(m@ =~= remove_row_seq(self@, N::spec_val() as int, i as int));
            } else {
                assert(m@ =~= self@);
            }
        }
        m
    }
}

/// A copy of a buffer.
pub fn copy_vec<T: Copy>(a: &Vec<T>) -> (r: Vec<T>)
    ensures
        r@ == a@,
{
    let mut v: Vec<T> = Vec::with_capacity(a.len());
    let mut k: usize = 0;
    while k < a.len()
        invariant
            k <= a@.len(),
            v@ == a@.subrange(0, k as int),
        decreases a@.len() - k,
    {
        v.push(a[k]);
        assert(v@ =~= a@.subrange(0, k + 1));
        k += 1;
    }
    assert(v@ =~= a@);
    v
}

impl<T: Copy, M: Nat + Val, N: Nat + Val> Matrix<T, M, N> {
    /// A copy of the matrix.
    pub fn copied(&self) -> (r: Self)
        ensures
            r@ == self@,
            self.wf() ==> r.wf(),
    {
        let mut m = Matrix::new_uninitialized();
        m.data = copy_vec(&self.data);
        m
    }
}

impl<T, M, N> Matrix<T, M, Succ<N>> where T: Copy, M: Nat + Val, N: Nat + Val {
    /// Remove the j'th col. With no such column, all entries are kept.
    pub fn remove_col(&self, j: usize) -> (r: Matrix<T, M, N>)
        requires
            self.wf(),
            N::spec_val() > 0 || j > 0,
        ensures
            j <= N::spec_val() ==> r.wf() && r@ == remove_col_seq(
                self@,
                N::spec_val() as int + 1,
                j as int,
            ),
            j > N::spec_val() ==> r@ == self@,
    {
        let cols = N::val() + 1;
        let rows = M::val();
        let mut m = Matrix::new_uninitialized();
        if j >= cols {
            m.data = copy_vec(&self.data);
            return m;
        }
        let ghost s = self@;
        let ghost kept = cols - 1;
        let mut v: Vec<T> = Vec::with_capacity(self.data.len());
        let mut x: usize = 0;
        while x < rows
            invariant
                self.wf(),
                s == self@,
                cols == N::spec_val() + 1,
                rows == M::spec_val(),
                kept == cols - 1,
                kept > 0,
                j < cols,
                x <= rows,
                v@.len() == kept * x,
                forall|k: int|
                    0 <= k < v@.len() ==> #[trigger] v@[k] == s[k + k / kept + if k % kept < j {
                        0int
                    } else {
                        1int
                    }],
            decreases rows - x,
        {
            let mut y: usize = 0;
            while y < cols
                invariant
                    self.wf(),
                    s == self@,
                    cols == N::spec_val() + 1,
                    rows == M::spec_val(),
                    kept == cols - 1,
                    kept > 0,
                    j < cols,
                    x < rows,
                    y <= cols,
                    v@.len() == kept * x + y - if y > j {
                        1int
                    } else {
                        0int
                    },
                    forall|k: int|
                        0 <= k < v@.len() ==> #[trigger] v@[k] == s[k + k / kept + if k % kept < j {
                            0int
                        } else {
                            1int
                        }],
                decreases cols - y,
            {
                if y != j {
                    let ghost k = v@.len() as int;
                    let ghost y1 = if y > j {
                        y - 1
                    } else {
                        y as int
                    };
                    proof {
                        lemma_row_major_bound(rows as int, cols as int, x as int, y as int);
                        assert(kept * x == x * kept) by (nonlinear_arith);
                        lemma_fundamental_div_mod_converse(k, kept, x as int, y1);
                        assert(kept * x + x == cols * x) by (nonlinear_arith)
                            requires
                                kept == cols - 1,
                        ;
                    }
                    v.push(self.data[cols * x + y]);
                }
                y += 1;
            }
            proof {
                assert(kept * (x + 1) == kept * x + kept) by (nonlinear_arith);
            }
            x += 1;
        }
        proof {
            lemma_rows_of(rows as int, cols as int);
            assert(rows * cols - rows == kept * rows) by (nonlinear_arith)
                requires
                    kept == cols - 1,
            ;
            assert(kept * rows == rows * kept) by (nonlinear_arith);
            assert(v@ =~= remove_col_seq(s, cols as int, j as int));
        }
        m.data = v;
        m
    }
}

impl<T, M, N> Matrix<T, Succ<M>, Succ<N>> where
    T: Copy,
    M: Nat + Val,
    N: Nat + Val,
    Succ<M>: Nat + Val,
    Succ<N>: Nat + Val,
 {
    /// Get the submatrix at index (i, j): the matrix without its row `i`
    /// and its column `j`.
    pub fn submatrix(&self, i: usize, j: usize) -> (r: Matrix<T, M, N>)
        requires
            self.wf(),
            i <= M::spec_val(),
            j <= N::spec_val(),
            N::spec_val() > 0,
        ensures
            r.wf(),
            r@ == remove_col_seq(
                remove_row_seq(self@, N::spec_val() as int + 1, i as int),
                N::spec_val() as int + 1,
                j as int,
            ),
    {
        self.remove_row(i).remove_col(j)
    }
}

/// Convert an 1x1 Matrix to a scalar
impl<T: Copy> Matrix<T, N1, N1> {
    pub fn as_scalar(&self) -> (r: T)
        requires
            self@.len() > 0,
        ensures
            r == self@[0],
    {
        self.data[0]
    }
}

/// The scalar's operators `+ - *`, its negation and its conversion from
/// small integers return what their spec functions say.
pub open spec fn obeys_ring<
    T: Add<Output = T> + Sub<Output = T> + Mul<Output = T> + Neg<Output = T> + From<i8>,
>() -> bool {
    &&& T::obeys_add_spec()
    &&& T::obeys_sub_spec()
    &&& T::obeys_mul_spec()
    &&& T::obeys_neg_spec()
    &&& T::obeys_from_spec()
}

/// The scalar's operators `+ - *` and its negation are total.
pub open spec fn total_ring<
    T: Add<Output = T> + Sub<Output = T> + Mul<Output = T> + Neg<Output = T>,
>() -> bool {
    &&& total_add::<T>()
    &&& total_sub::<T>()
    &&& total_mul::<T>()
    &&& total_neg::<T>()
}

/// The determinant of a square buffer of side `n`: of a single entry the
/// entry, of two by two `ad - bc`, else the expansion along row 0.
pub open spec fn det_seq<
    T: Add<Output = T> + Sub<Output = T> + Mul<Output = T> + Neg<Output = T> + From<i8>,
>(s: Seq<T>, n: nat) -> T
    decreases n, 1nat, 0nat,
{
    if n <= 1 {
        s[0]
    } else if n == 2 {
        s[0].mul_spec(s[3]).sub_spec(s[1].mul_spec(s[2]))
    } else {
        expansion(s, n, n)
    }
}

/// The cofactor at `(i, j)`: the determinant of the buffer without row `i`
/// and column `j`, times minus one where `i + j` is odd.
pub open spec fn cofactor_seq<
    T: Add<Output = T> + Sub<Output = T> + Mul<Output = T> + Neg<Output = T> + From<i8>,
>(s: Seq<T>, n: nat, i: int, j: int) -> T
    decreases n - 1, 2nat, 0nat,
{
    if n <= 1 {
        s[0]
    } else {
        let minor = det_seq(minor_seq(s, n as int, i, j), (n - 1) as nat);
        if (i + j) % 2 == 1 {
            spec_one::<T>().neg_spec().mul_spec(minor)
        } else {
            minor
        }
    }
}

/// The first `k` terms of the expansion along row 0, added up from the left.
pub open spec fn expansion<
    T: Add<Output = T> + Sub<Output = T> + Mul<Output = T> + Neg<Output = T> + From<i8>,
>(s: Seq<T>, n: nat, k: nat) -> T
    decreases n, 0nat, k,
{
    if n <= 1 {
        s[0]
    } else if k <= 1 {
        s[0].mul_spec(cofactor_seq(s, n, 0, 0))
    } else {
        expansion(s, n, (k - 1) as nat).add_spec(
            s[k - 1].mul_spec(cofactor_seq(s, n, 0, k - 1)),
        )
    }
}

/// Every step of [`det_seq`] can be computed.
pub open spec fn det_req_seq<
    T: Add<Output = T> + Sub<Output = T> + Mul<Output = T> + Neg<Output = T> + From<i8>,
>(s: Seq<T>, n: nat) -> bool
    decreases n, 1nat, 0nat,
{
    if n <= 1 {
        true
    } else if n == 2 {
        &&& s[0].mul_req(s[3])
        &&& s[1].mul_req(s[2])
        &&& s[0].mul_spec(s[3]).sub_req(s[1].mul_spec(s[2]))
    } else {
        expansion_req(s, n, n)
    }
}

/// Every step of [`cofactor_seq`] can be computed.
pub open spec fn cofactor_req_seq<
    T: Add<Output = T> + Sub<Output = T> + Mul<Output = T> + Neg<Output = T> + From<i8>,
>(s: Seq<T>, n: nat, i: int, j: int) -> bool
    decreases n - 1, 2nat, 0nat,
{
    if n <= 1 {
        true
    } else {
        let sub = minor_seq(s, n as int, i, j);
        &&& det_req_seq(sub, (n - 1) as nat)
        &&& (i + j) % 2 == 1 ==> {
            &&& spec_one::<T>().neg_req()
            &&& spec_one::<T>().neg_spec().mul_req(det_seq(sub, (n - 1) as nat))
        }
    }
}

/// Every step of [`expansion`] can be computed.
pub open spec fn expansion_req<
    T: Add<Output = T> + Sub<Output = T> + Mul<Output = T> + Neg<Output = T> + From<i8>,
>(s: Seq<T>, n: nat, k: nat) -> bool
    decreases n, 0nat, k,
{
    if n <= 1 || k == 0 {
        true
    } else if k == 1 {
        &&& cofactor_req_seq(s, n, 0, 0)
        &&& s[0].mul_req(cofactor_seq(s, n, 0, 0))
    } else {
        &&& expansion_req(s, n, (k - 1) as nat)
        &&& cofactor_req_seq(s, n, 0, k - 1)
        &&& s[k - 1].mul_req(cofactor_seq(s, n, 0, k - 1))
        &&& expansion(s, n, (k - 1) as nat).add_req(
            s[k - 1].mul_spec(cofactor_seq(s, n, 0, k - 1)),
        )
    }
}

/// What can be computed for `k` terms of the expansion can be computed for
/// fewer.
pub proof fn lemma_expansion_req_prefix<
    T: Add<Output = T> + Sub<Output = T> + Mul<Output = T> + Neg<Output = T> + From<i8>,
>(s: Seq<T>, n: nat, k: nat, l: nat)
    requires
        expansion_req(s, n, k),
        n >= 2,
        1 <= l <= k,
    ensures
        expansion_req(s, n, l),
    decreases k,
{
    if l < k {
        lemma_expansion_req_prefix(s, n, (k - 1) as nat, l);
    }
}

/// `num::Integer::is_odd` on a `usize`: whether two divides the number with
/// remainder one.
#[verifier::external_body]
fn is_odd(n: usize) -> (r: bool)
    ensures
        r == (n % 2 == 1),
{
    num::Integer::is_odd(&n)
}

/// The sign rule of cofactors: `minor`, negated where `i + j` is odd.
fn signed_minor<T: Copy + Mul<Output = T> + Neg<Output = T> + From<i8>>(
    minor: T,
    i: usize,
    j: usize,
) -> (r: T)
    requires
        i + j <= usize::MAX,
        (i + j) % 2 == 1 ==> (total_neg::<T>() && total_mul::<T>()) || {
            &&& T::obeys_from_spec()
            &&& T::obeys_neg_spec()
            &&& spec_one::<T>().neg_req()
            &&& spec_one::<T>().neg_spec().mul_req(minor)
        },
    ensures
        (i + j) % 2 != 1 ==> r == minor,
        (i + j) % 2 == 1 && T::obeys_mul_spec() && T::obeys_from_spec() && T::obeys_neg_spec()
            ==> r == spec_one::<T>().neg_spec().mul_spec(minor),
{
    if is_odd(i + j) {
        let o: T = one();
        o.neg() * minor
    } else {
        minor
    }
}

/// Minors, cofactors and the determinant of a square matrix of side `M`.
///
/// Each method can be called where the scalar's operators are total, or
/// where they are specified and no step goes beyond what they allow; what it
/// returns is stated where they are specified.
pub trait Determinant<T, M> {
    /// The scalar's operators are specified.
    spec fn obeys_det_spec() -> bool;

    /// The minor at `(i, j)` can be computed.
    spec fn minor_req(&self, i: usize, j: usize) -> bool;

    /// The minor at `(i, j)`.
    spec fn minor_spec(&self, i: usize, j: usize) -> T;

    /// The cofactor at `(i, j)` can be computed.
    spec fn cofactor_req(&self, i: usize, j: usize) -> bool;

    /// The cofactor at `(i, j)`.
    spec fn cofactor_spec(&self, i: usize, j: usize) -> T;

    /// The determinant can be computed.
    spec fn det_req(&self) -> bool;

    /// The determinant.
    spec fn det_spec(&self) -> T;

    /// Calculate the minor(determinant of the submatrix) of a MxM matrix at (i,j)
    fn minor(&self, i: usize, j: usize) -> (r: T)
        requires
            self.minor_req(i, j),
        ensures
            Self::obeys_det_spec() ==> r == self.minor_spec(i, j),
    ;

    /// Calculate the cofactor of a MxM matrix at (i, j)
    fn cofactor(&self, i: usize, j: usize) -> (r: T)
        requires
            self.cofactor_req(i, j),
        ensures
            Self::obeys_det_spec() ==> r == self.cofactor_spec(i, j),
    ;

    /// Calculate the determinant of the matrix
    fn det(&self) -> (r: T)
        requires
            self.det_req(),
        ensures
            Self::obeys_det_spec() ==> r == self.det_spec(),
    ;
}

/// The numbers that the small dimensions stand for.
pub proof fn lemma_small_dims()
    ensures
        N1::spec_val() == 1,
        N2::spec_val() == 2,
        N3::spec_val() == 3,
        N4::spec_val() == 4,
{
}

impl<T> Determinant<T, N2> for Matrix<T, N2, N2> where
    T: Copy + Add<Output = T> + Sub<Output = T> + Mul<Output = T> + Neg<Output = T> + From<i8>,
 {
    open spec fn obeys_det_spec() -> bool {
        obeys_ring::<T>()
    }

    open spec fn minor_req(&self, i: usize, j: usize) -> bool {
        &&& self.wf()
        &&& i < 2
        &&& j < 2
        &&& total_ring::<T>() || (obeys_ring::<T>() && det_req_seq(
            minor_seq(self@, 2, i as int, j as int),
            1,
        ))
    }

    open spec fn minor_spec(&self, i: usize, j: usize) -> T {
        det_seq(minor_seq(self@, 2, i as int, j as int), 1)
    }

    open spec fn cofactor_req(&self, i: usize, j: usize) -> bool {
        &&& self.wf()
        &&& i < 2
        &&& j < 2
        &&& total_ring::<T>() || (obeys_ring::<T>() && cofactor_req_seq(
            self@,
            2,
            i as int,
            j as int,
        ))
    }

    open spec fn cofactor_spec(&self, i: usize, j: usize) -> T {
        cofactor_seq(self@, 2, i as int, j as int)
    }

    open spec fn det_req(&self) -> bool {
        &&& self.wf()
        &&& total_ring::<T>() || (obeys_ring::<T>() && det_req_seq(self@, 2))
    }

    open spec fn det_spec(&self) -> T {
        det_seq(self@, 2)
    }

    fn minor(&self, i: usize, j: usize) -> (r: T) {
        proof {
            lemma_small_dims();
        }
        self.submatrix(i, j).as_scalar()
    }

    fn cofactor(&self, i: usize, j: usize) -> (r: T) {
        let minor = self.minor(i, j);
        signed_minor(minor, i, j)
    }

    fn det(&self) -> (r: T) {
        proof {
            lemma_small_dims();
        }
        let a = self.data[0];
        let b = self.data[1];
        let c = self.data[2];
        let d = self.data[3];
        a * d - b * c
    }
}

impl<T> Determinant<T, N3> for Matrix<T, N3, N3> where
    T: Copy + Add<Output = T> + Sub<Output = T> + Mul<Output = T> + Neg<Output = T> + From<i8>,
 {
    open spec fn obeys_det_spec() -> bool {
        obeys_ring::<T>()
    }

    open spec fn minor_req(&self, i: usize, j: usize) -> bool {
        &&& self.wf()
        &&& i < 3
        &&& j < 3
        &&& total_ring::<T>() || (obeys_ring::<T>() && det_req_seq(
            minor_seq(self@, 3, i as int, j as int),
            2,
        ))
    }

    open spec fn minor_spec(&self, i: usize, j: usize) -> T {
        det_seq(minor_seq(self@, 3, i as int, j as int), 2)
    }

    open spec fn cofactor_req(&self, i: usize, j: usize) -> bool {
        &&& self.wf()
        &&& i < 3
        &&& j < 3
        &&& total_ring::<T>() || (obeys_ring::<T>() && cofactor_req_seq(
            self@,
            3,
            i as int,
            j as int,
        ))
    }

    open spec fn cofactor_spec(&self, i: usize, j: usize) -> T {
        cofactor_seq(self@, 3, i as int, j as int)
    }

    open spec fn det_req(&self) -> bool {
        &&& self.wf()
        &&& total_ring::<T>() || (obeys_ring::<T>() && det_req_seq(self@, 3))
    }

    open spec fn det_spec(&self) -> T {
        det_seq(self@, 3)
    }

    fn minor(&self, i: usize, j: usize) -> (r: T) {
        proof {
            lemma_small_dims();
        }
        self.submatrix(i, j).det()
    }

    fn cofactor(&self, i: usize, j: usize) -> (r: T) {
        let minor = self.minor(i, j);
        signed_minor(minor, i, j)
    }

    fn det(&self) -> (r: T) {
        let ghost exact = obeys_ring::<T>() && expansion_req(self@, 3, 3);
        proof {
            lemma_small_dims();
            if exact {
                lemma_expansion_req_prefix(self@, 3, 3, 1);
            }
        }
        let mut acc = self.data[0] * self.cofactor(0, 0);
        let mut j: usize = 1;
        while j < 3
            invariant
                1 <= j <= 3,
                self.wf(),
                self@.len() == 9,
                total_ring::<T>() || exact,
                exact == (obeys_ring::<T>() && expansion_req(self@, 3, 3)),
                obeys_ring::<T>() ==> acc == expansion(self@, 3, j as nat),
            decreases 3 - j,
        {
            proof {
                if exact {
                    lemma_expansion_req_prefix(self@, 3, 3, (j + 1) as nat);
                }
            }
            acc = acc + self.data[j] * self.cofactor(0, j);
            j += 1;
        }
        acc
    }
}

impl<T> Determinant<T, N4> for Matrix<T, N4, N4> where
    T: Copy + Add<Output = T> + Sub<Output = T> + Mul<Output = T> + Neg<Output = T> + From<i8>,
 {
    open spec fn obeys_det_spec() -> bool {
        obeys_ring::<T>()
    }

    open spec fn minor_req(&self, i: usize, j: usize) -> bool {
        &&& self.wf()
        &&& i < 4
        &&& j < 4
        &&& total_ring::<T>() || (obeys_ring::<T>() && det_req_seq(
            minor_seq(self@, 4, i as int, j as int),
            3,
        ))
    }

    open spec fn minor_spec(&self, i: usize, j: usize) -> T {
        det_seq(minor_seq(self@, 4, i as int, j as int), 3)
    }

    open spec fn cofactor_req(&self, i: usize, j: usize) -> bool {
        &&& self.wf()
        &&& i < 4
        &&& j < 4
        &&& total_ring::<T>() || (obeys_ring::<T>() && cofactor_req_seq(
            self@,
            4,
            i as int,
            j as int,
        ))
    }

    open spec fn cofactor_spec(&self, i: usize, j: usize) -> T {
        cofactor_seq(self@, 4, i as int, j as int)
    }

    open spec fn det_req(&self) -> bool {
        &&& self.wf()
        &&& total_ring::<T>() || (obeys_ring::<T>() && det_req_seq(self@, 4))
    }

    open spec fn det_spec(&self) -> T {
        det_seq(self@, 4)
    }

    fn minor(&self, i: usize, j: usize) -> (r: T) {
        proof {
            lemma_small_dims();
        }
        self.submatrix(i, j).det()
    }

    fn cofactor(&self, i: usize, j: usize) -> (r: T) {
        let minor = self.minor(i, j);
        signed_minor(minor, i, j)
    }

    fn det(&self) -> (r: T) {
        let ghost exact = obeys_ring::<T>() && expansion_req(self@, 4, 4);
        proof {
            lemma_small_dims();
            if exact {
                lemma_expansion_req_prefix(self@, 4, 4, 1);
            }
        }
        let mut acc = self.data[0] * self.cofactor(0, 0);
        let mut j: usize = 1;
        while j < 4
            invariant
                1 <= j <= 4,
                self.wf(),
                self@.len() == 16,
                total_ring::<T>() || exact,
                exact == (obeys_ring::<T>() && expansion_req(self@, 4, 4)),
                obeys_ring::<T>() ==> acc == expansion(self@, 4, j as nat),
            decreases 4 - j,
        {
            proof {
                if exact {
                    lemma_expansion_req_prefix(self@, 4, 4, (j + 1) as nat);
                }
            }
            acc = acc + self.data[j] * self.cofactor(0, j);
            j += 1;
        }
        acc
    }
}

/// The determinant of a four by four buffer counts as zero.
pub open spec fn det_is_zero<
    T: Add<Output = T> + Sub<Output = T> + Mul<Output = T> + Neg<Output = T> + From<i8> + PartialEq,
>(s: Seq<T>) -> bool {
    det_seq(s, 4).eq_spec(&spec_zero::<T>())
}

/// The inverse of a four by four buffer can be computed: the scalar's
/// operators are total, or they are specified, the determinant and every
/// cofactor can be computed and, unless the determinant counts as zero, each
/// cofactor can be divided by it.
pub open spec fn invert_req<
    T: Add<Output = T> + Sub<Output = T> + Mul<Output = T> + Neg<Output = T> + From<i8> + Div<
        Output = T,
    > + PartialEq,
>(s: Seq<T>) -> bool {
    (total_ring::<T>() && total_div::<T>()) || {
        &&& obeys_ring::<T>()
        &&& det_req_seq(s, 4)
        &&& forall|i: int, j: int|
            0 <= i < 4 && 0 <= j < 4 ==> #[trigger] cofactor_req_seq(s, 4, i, j)
        &&& forall|i: int, j: int|
            0 <= i < 4 && 0 <= j < 4 ==> (#[trigger] cofactor_seq(s, 4, i, j)).div_req(
                det_seq(s, 4),
            ) || (T::obeys_eq_spec() && det_is_zero(s))
    }
}

/// `inv` holds the inverse of the four by four buffer `m`: the transposed
/// matrix of cofactors, each entry divided by the determinant.
pub open spec fn is_inverse<
    T: Add<Output = T> + Sub<Output = T> + Mul<Output = T> + Neg<Output = T> + From<i8> + Div<
        Output = T,
    >,
>(inv: Seq<T>, m: Seq<T>) -> bool {
    &&& inv.len() == 16
    &&& forall|i: int, j: int|
        0 <= i < 4 && 0 <= j < 4 ==> #[trigger] entry(inv, 4, i, j) == cofactor_seq(
            m,
            4,
            j,
            i,
        ).div_spec(det_seq(m, 4))
}

impl<T> Matrix<T, N4, N4> where
    T: Copy + Add<Output = T> + Sub<Output = T> + Mul<Output = T> + Neg<Output = T> + From<i8> + Div<
        Output = T,
    > + PartialEq,
 {
    /// Calculate the inverse of a matrix if it exists - return None otherwise.
    /// The inverse is the transposed matrix of cofactors, each entry divided
    /// by the determinant.
    pub fn invert(&self) -> (r: Option<Self>)
        requires
            self.wf(),
            invert_req(self@),
        ensures
            obeys_ring::<T>() && T::obeys_eq_spec() ==> (r is None <==> det_is_zero(self@)),
            r matches Some(m) ==> m.wf() && (obeys_ring::<T>() && T::obeys_div_spec()
                ==> is_inverse(m@, self@)),
    {
        proof {
            lemma_small_dims();
        }
        let det = self.det();
        let z: T = zero();
        if det == z {
            None
        } else {
            let mut v: Vec<T> = Vec::with_capacity(16);
            let mut i: usize = 0;
            while i < 4
                invariant
                    i <= 4,
                    self.wf(),
                    invert_req(self@),
                    v@.len() == 4 * i,
                    obeys_ring::<T>() ==> forall|x: int, y: int|
                        0 <= x < i && 0 <= y < 4 ==> #[trigger] entry(v@, 4, x, y) == cofactor_seq(
                            self@,
                            4,
                            x,
                            y,
                        ),
                decreases 4 - i,
            {
                let mut j: usize = 0;
                while j < 4
                    invariant
                        i < 4,
                        j <= 4,
                        self.wf(),
                        invert_req(self@),
                        v@.len() == 4 * i + j,
                        obeys_ring::<T>() ==> forall|x: int, y: int|
                            0 <= x && 0 <= y < 4 && (x < i || (x == i && y < j)) ==> #[trigger] entry(
                                v@,
                                4,
                                x,
                                y,
                            ) == cofactor_seq(self@, 4, x, y),
                    decreases 4 - j,
                {
                    assert(total_ring::<T>() || cofactor_req_seq(self@, 4, i as int, j as int));
                    let ghost before = v@;
                    v.push(self.cofactor(i, j));
                    proof {
                        assert forall|x: int, y: int|
                            0 <= x && 0 <= y < 4 && (x < i || (x == i && y < j + 1))
                                && obeys_ring::<T>() implies #[trigger] entry(v@, 4, x, y)
                            == cofactor_seq(self@, 4, x, y) by {
                            if x == i && y == j {
                            } else {
                                assert(entry(v@, 4, x, y) == entry(before, 4, x, y));
                            }
                        }
                    }
                    j += 1;
                }
                i += 1;
            }
            let mut m = Self::new_uninitialized();
            m.data = v;
            let m2 = m.transpose();
            proof {
                assert(m2@.len() == 16) by (nonlinear_arith)
                    requires
                        m2@.len() == N4::spec_val() * N4::spec_val(),
                        N4::spec_val() == 4,
                ;
                assert forall|k: int| 0 <= k < 16 implies (#[trigger] m2@[k]).div_req(det) by {
                    let x = k / 4;
                    let y = k % 4;
                    assert(m2@[k] == m2.at(x, y));
                    assert(m2.at(x, y) == m.at(y, x));
                    if obeys_ring::<T>() {
                        assert(m.at(y, x) == cofactor_seq(self@, 4, y, x));
                    }
                }
            }
            let r = Matrix::from(div_vec_scalar(&m2.data, det));
            proof {
                if obeys_ring::<T>() && T::obeys_div_spec() {
                    assert forall|x: int, y: int|
                        0 <= x < 4 && 0 <= y < 4 implies #[trigger] entry(r@, 4, x, y)
                        == cofactor_seq(self@, 4, y, x).div_spec(det_seq(self@, 4)) by {
                        assert(r.at(x, y) == r@[4 * x + y]);
                        assert(m2.at(x, y) == m.at(y, x));
                    }
                }
            }
            Some(r)
        }
    }
}

} // verus!
