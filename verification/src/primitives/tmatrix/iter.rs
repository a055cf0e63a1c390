//! Iteration and indexing operations and methods
use super::prelude::{lemma_row_major_bound, Matrix};
use crate::utils::typelevel_nums::{Nat, Val};
use std::ops::Index;
use vstd::prelude::*;

verus! {

impl<T, M: Nat + Val, N: Nat + Val> vstd::std_specs::core::IndexSpecImpl<(usize, usize)> for Matrix<T, M, N> {
    open spec fn index_req(&self, index: &(usize, usize)) -> bool {
        &&& N::spec_val() <= usize::MAX
        &&& N::spec_val() * index.0 + index.1 < self.data.len()
    }
}

impl<T, M: Nat + Val, N: Nat + Val> Index<(usize, usize)> for Matrix<T, M, N> {
    type Output = T;

    fn index(&self, coords: (usize, usize)) -> (r: &Self::Output)
        ensures
            *r == self.at(coords.0 as int, coords.1 as int),
    {
        let (i, j) = coords;
        proof {
            lemma_mul_le(N::spec_val() as int, i as int);
        }
        &self.data[Self::to_row_major(i, j)]
    }
}

/// A product of naturals is at least zero.
pub proof fn lemma_mul_le(n: int, i: int)
    by (nonlinear_arith)
    requires
        0 <= n,
        0 <= i,
    ensures
        0 <= n * i,
{
}

impl<T, M: Nat + Val, N: Nat + Val> Matrix<T, M, N> {
    /// Convert a pair of matrix coordinates to an index into a data buffer
    /// that's implemented in row_major order
    /// It's interpreted as i'th row and j'th column
    #[allow(clippy::wrong_self_convention)]
    pub fn to_row_major(i: usize, j: usize) -> (r: usize)
        requires
            N::spec_val() * i + j <= usize::MAX,
            N::spec_val() <= usize::MAX,
        ensures
            r == N::spec_val() * i + j,
    {
        proof {
            lemma_mul_le(N::spec_val() as int, i as int);
        }
        N::val() * i + j
    }
}

/// Row `i` of a row major buffer with rows of length `n`: the part of it
/// that lies within the buffer.
pub open spec fn row_of<T>(s: Seq<T>, n: int, i: int) -> Seq<T> {
    let start = if n * i <= s.len() {
        n * i
    } else {
        s.len() as int
    };
    let end = if start + n <= s.len() {
        start + n
    } else {
        s.len() as int
    };
    s.subrange(start, end)
}

/// How many of the positions `j`, `j + n`, `j + 2n`, ... lie below `len`.
pub open spec fn col_len(len: int, n: int, j: int) -> int {
    if j >= len {
        0
    } else {
        (len - j - 1) / n + 1
    }
}

/// Column `j` of a row major buffer with rows of length `n`.
pub open spec fn col_of<T>(s: Seq<T>, n: int, j: int) -> Seq<T> {
    Seq::new(col_len(s.len() as int, n, j) as nat, |k: int| s[j + n * k])
}

/// The entries of rows `0..m`, each with its row and column.
pub open spec fn indexed_rows<T>(s: Seq<T>, n: int, m: int) -> Seq<(usize, usize, T)>
    decreases m,
{
    if m <= 0 {
        Seq::empty()
    } else {
        let row = row_of(s, n, m - 1);
        indexed_rows(s, n, m - 1) + Seq::new(
            row.len(),
            |j: int| ((m - 1) as usize, j as usize, row[j]),
        )
    }
}

/// The `k`th position of a column lies in the buffer.
pub proof fn lemma_col_position(len: int, n: int, j: int, k: int)
    by (nonlinear_arith)
    requires
        0 < n,
        0 <= j,
        0 <= k < col_len(len, n, j),
    ensures
        0 <= j + n * k < len,
{
}

impl<T, M: Nat + Val, N: Nat + Val> Matrix<T, M, N> {
    /// Overwrite the entry in row `coords.0` and column `coords.1`.
    pub fn set(&mut self, coords: (usize, usize), value: T)
        requires
            N::spec_val() <= usize::MAX,
            N::spec_val() * coords.0 + coords.1 < old(self).data.len(),
        ensures
            final(self)@ == old(self)@.update(N::spec_val() * coords.0 + coords.1, value),
    {
        let (i, j) = coords;
        proof {
            lemma_mul_le(N::spec_val() as int, i as int);
        }
        let k = Self::to_row_major(i, j);
        self.data[k] = value;
    }

    /// Iterate over all elements
    pub fn iter(&self) -> (r: std::slice::Iter<'_, T>)
        ensures
            vstd::std_specs::slice::into_iter_elts(r) == self@,
    {
        let r = self.data.iter();
        proof {
            broadcast use vstd::std_specs::slice::axiom_spec_slice_iter;

            assert(self@.as_ref().unref() =~= self@);
        }
        r
    }

    /// The elements of the ith row of the matrix
    pub fn iter_row(&self, i: usize) -> (r: Vec<&T>)
        requires
            N::spec_val() <= usize::MAX,
            i * N::spec_val() <= usize::MAX,
        ensures
            r@.unref() == row_of(self@, N::spec_val() as int, i as int),
    {
        let n = N::val();
        let len = self.data.len();
        proof {
            lemma_mul_le(n as int, i as int);
            assert(i * n == n * i) by (nonlinear_arith);
        }
        let skip = i * n;
        let start = if skip <= len {
            skip
        } else {
            len
        };
        let end = if n <= len - start {
            start + n
        } else {
            len
        };
        let mut v: Vec<&T> = Vec::new();
        let mut k = start;
        while k < end
            invariant
                start <= k <= end <= len,
                len == self.data@.len(),
                v@.len() == k - start,
                forall|x: int| 0 <= x < v@.len() ==> *#[trigger] v@[x] == self.data@[start + x],
            decreases end - k,
        {
            v.push(&self.data[k]);
            k += 1;
        }
        assert(v@.unref() =~= row_of(self@, N::spec_val() as int, i as int));
        v
    }

    /// The elements of the jth coloumn of the matrix
    pub fn iter_col(&self, j: usize) -> (r: Vec<&T>)
        requires
            0 < N::spec_val() <= usize::MAX,
        ensures
            r@.unref() == col_of(self@, N::spec_val() as int, j as int),
    {
        let n = N::val();
        let len = self.data.len();
        let count = if j >= len {
            0
        } else {
            (len - j - 1) / n + 1
        };
        let mut v: Vec<&T> = Vec::new();
        let mut k: usize = 0;
        while k < count
            invariant
                0 < n,
                n == N::spec_val(),
                len == self.data@.len(),
                count == col_len(len as int, n as int, j as int),
                k <= count,
                v@.len() == k,
                forall|x: int| 0 <= x < v@.len() ==> *#[trigger] v@[x] == self.data@[j + n * x],
            decreases count - k,
        {
            proof {
                lemma_col_position(len as int, n as int, j as int, k as int);
                lemma_mul_le(n as int, k as int);
            }
            v.push(&self.data[j + n * k]);
            k += 1;
        }
        assert(v@.unref() =~= col_of(self@, N::spec_val() as int, j as int));
        v
    }

    /// All rows of the matrix, first to last
    pub fn iter_rows(&self) -> (r: Vec<Vec<&T>>)
        requires
            Self::dims_fit(),
        ensures
            r@.len() == M::spec_val(),
            forall|i: int|
                0 <= i < r@.len() ==> (#[trigger] r@[i])@.unref() == row_of(
                    self@,
                    N::spec_val() as int,
                    i,
                ),
    {
        let m = M::val();
        let mut v: Vec<Vec<&T>> = Vec::new();
        let mut i: usize = 0;
        while i < m
            invariant
                Self::dims_fit(),
                m == M::spec_val(),
                i <= m,
                v@.len() == i,
                forall|x: int|
                    0 <= x < v@.len() ==> (#[trigger] v@[x])@.unref() == row_of(
                        self@,
                        N::spec_val() as int,
                        x,
                    ),
            decreases m - i,
        {
            proof {
                lemma_dim_product(M::spec_val() as int, N::spec_val() as int, i as int);
            }
            let row = self.iter_row(i);
            v.push(row);
            i += 1;
        }
        v
    }

    /// All columns of the matrix, first to last
    pub fn iter_cols(&self) -> (r: Vec<Vec<&T>>)
        requires
            N::spec_val() <= usize::MAX,
        ensures
            r@.len() == N::spec_val(),
            forall|j: int|
                0 <= j < r@.len() ==> (#[trigger] r@[j])@.unref() == col_of(
                    self@,
                    N::spec_val() as int,
                    j,
                ),
    {
        let n = N::val();
        let mut v: Vec<Vec<&T>> = Vec::new();
        let mut j: usize = 0;
        while j < n
            invariant
                n == N::spec_val(),
                j <= n,
                v@.len() == j,
                forall|x: int|
                    0 <= x < v@.len() ==> (#[trigger] v@[x])@.unref() == col_of(
                        self@,
                        N::spec_val() as int,
                        x,
                    ),
            decreases n - j,
        {
            let col = self.iter_col(j);
            v.push(col);
            j += 1;
        }
        v
    }

    /// The 3-tuples (i, j, self[(i,j)]), row after row
    pub fn iter_indexed(&self) -> (r: Vec<(usize, usize, &T)>)
        requires
            Self::dims_fit(),
        ensures
            r@.len() == indexed_rows(self@, N::spec_val() as int, M::spec_val() as int).len(),
            forall|k: int|
                0 <= k < r@.len() ==> {
                    let e = indexed_rows(self@, N::spec_val() as int, M::spec_val() as int)[k];
                    (#[trigger] r@[k]).0 == e.0 && r@[k].1 == e.1 && *r@[k].2 == e.2
                },
    {
        let m = M::val();
        let mut v: Vec<(usize, usize, &T)> = Vec::new();
        let mut i: usize = 0;
        while i < m
            invariant
                Self::dims_fit(),
                m == M::spec_val(),
                i <= m,
                v@.len() == indexed_rows(self@, N::spec_val() as int, i as int).len(),
                forall|k: int|
                    0 <= k < v@.len() ==> {
                        let e = indexed_rows(self@, N::spec_val() as int, i as int)[k];
                        (#[trigger] v@[k]).0 == e.0 && v@[k].1 == e.1 && *v@[k].2 == e.2
                    },
            decreases m - i,
        {
            proof {
                lemma_dim_product(M::spec_val() as int, N::spec_val() as int, i as int);
            }
            let row = self.iter_row(i);
            let ghost before = v@;
            let ghost done = indexed_rows(self@, N::spec_val() as int, i as int);
            let ghost full = row_of(self@, N::spec_val() as int, i as int);
            let mut j: usize = 0;
            while j < row.len()
                invariant
                    j <= row@.len(),
                    row@.unref() == full,
                    v@.len() == done.len() + j,
                    forall|k: int|
                        0 <= k < done.len() ==> {
                            (#[trigger] v@[k]).0 == done[k].0 && v@[k].1 == done[k].1 && *v@[k].2
                                == done[k].2
                        },
                    forall|k: int|
                        0 <= k < j ==> {
                            (#[trigger] v@[done.len() + k]).0 == i && v@[done.len() + k].1 == k
                                && *v@[done.len() + k].2 == full[k]
                        },
                decreases row@.len() - j,
            {
                assert(*row@[j as int] == row@.unref()[j as int]);
                v.push((i, j, row[j]));
                j += 1;
            }
            i += 1;
            assert forall|k: int| 0 <= k < v@.len() implies {
                let e = indexed_rows(self@, N::spec_val() as int, i as int)[k];
                (#[trigger] v@[k]).0 == e.0 && v@[k].1 == e.1 && *v@[k].2 == e.2
            } by {
                if k >= done.len() {
                    assert(v@[done.len() + (k - done.len())].1 == k - done.len());
                }
            }
        }
        v
    }

    /// All elements, deinitializing self
    pub fn into_iter(self) -> (r: Vec<T>)
        ensures
            r@ == self@,
    {
        self.data
    }

    /// The ith row of the matrix, deinitializing self
    pub fn into_iter_row(self, i: usize) -> (r: Vec<T>)
        requires
            N::spec_val() <= usize::MAX,
            i * N::spec_val() <= usize::MAX,
        ensures
            r@ == row_of(self@, N::spec_val() as int, i as int),
    {
        let n = N::val();
        let mut d = self.data;
        let len = d.len();
        proof {
            lemma_mul_le(n as int, i as int);
            assert(i * n == n * i) by (nonlinear_arith);
        }
        let skip = i * n;
        let start = if skip <= len {
            skip
        } else {
            len
        };
        let end = if n <= len - start {
            start + n
        } else {
            len
        };
        d.truncate(end);
        let r = d.split_off(start);
        assert(r@ =~= row_of(self@, N::spec_val() as int, i as int));
        r
    }
}

/// The entries that a list of references points to.
pub fn deref_all<T: Copy>(refs: &Vec<&T>) -> (r: Vec<T>)
    ensures
        r@ == refs@.unref(),
{
    let mut v: Vec<T> = Vec::with_capacity(refs.len());
    let mut k: usize = 0;
    while k < refs.len()
        invariant
            k <= refs@.len(),
            v@ == refs@.unref().subrange(0, k as int),
        decreases refs@.len() - k,
    {
        v.push(*refs[k]);
        assert(v@ =~= refs@.unref().subrange(0, k + 1));
        k += 1;
    }
    assert(v@ =~= refs@.unref());
    v
}

// Consuming iteration
impl<T: Copy, M: Nat + Val, N: Nat + Val> Matrix<T, M, N> {
    /// The jth coloumn of the matrix, deinitializing self
    pub fn into_iter_col(self, j: usize) -> (r: Vec<T>)
        requires
            0 < N::spec_val() <= usize::MAX,
        ensures
            r@ == col_of(self@, N::spec_val() as int, j as int),
    {
        deref_all(&self.iter_col(j))
    }

    /// All rows of the matrix, deinitializing self
    pub fn into_iter_rows(self) -> (r: Vec<Vec<T>>)
        requires
            Self::dims_fit(),
        ensures
            r@.len() == M::spec_val(),
            forall|i: int|
                0 <= i < r@.len() ==> (#[trigger] r@[i])@ == row_of(self@, N::spec_val() as int, i),
    {
        let rows = self.iter_rows();
        let mut v: Vec<Vec<T>> = Vec::new();
        let mut i: usize = 0;
        while i < rows.len()
            invariant
                i <= rows@.len(),
                v@.len() == i,
                forall|x: int| 0 <= x < i ==> (#[trigger] v@[x])@ == rows@[x]@.unref(),
            decreases rows@.len() - i,
        {
            v.push(deref_all(&rows[i]));
            i += 1;
        }
        v
    }

    /// All columns of the matrix, deinitializing self
    pub fn into_iter_cols(self) -> (r: Vec<Vec<T>>)
        requires
            N::spec_val() <= usize::MAX,
        ensures
            r@.len() == N::spec_val(),
            forall|j: int|
                0 <= j < r@.len() ==> (#[trigger] r@[j])@ == col_of(self@, N::spec_val() as int, j),
    {
        let cols = self.iter_cols();
        let mut v: Vec<Vec<T>> = Vec::new();
        let mut j: usize = 0;
        while j < cols.len()
            invariant
                j <= cols@.len(),
                v@.len() == j,
                forall|x: int| 0 <= x < j ==> (#[trigger] v@[x])@ == cols@[x]@.unref(),
            decreases cols@.len() - j,
        {
            v.push(deref_all(&cols[j]));
            j += 1;
        }
        v
    }

    /// The 3-tuples (i, j, self[(i,j)]), row after row, deinitializing self
    pub fn into_iter_indexed(self) -> (r: Vec<(usize, usize, T)>)
        requires
            Self::dims_fit(),
        ensures
            r@ == indexed_rows(self@, N::spec_val() as int, M::spec_val() as int),
    {
        let refs = self.iter_indexed();
        let mut v: Vec<(usize, usize, T)> = Vec::new();
        let ghost all = indexed_rows(self@, N::spec_val() as int, M::spec_val() as int);
        let mut k: usize = 0;
        while k < refs.len()
            invariant
                k <= refs@.len(),
                refs@.len() == all.len(),
                forall|x: int|
                    0 <= x < refs@.len() ==> (#[trigger] refs@[x]).0 == all[x].0 && refs@[x].1
                        == all[x].1 && *refs@[x].2 == all[x].2,
                v@ == all.subrange(0, k as int),
            decreases refs@.len() - k,
        {
            let (i, j, x) = refs[k];
            v.push((i, j, *x));
            assert(v@ =~= all.subrange(0, k + 1));
            k += 1;
        }
        assert(v@ =~= all);
        v
    }
}

/// A row below `m` starts within a buffer of `m * n` entries.
pub proof fn lemma_dim_product(m: int, n: int, i: int)
    by (nonlinear_arith)
    requires
        0 <= i < m,
        0 <= n,
    ensures
        0 <= i * n <= m * n,
        i * n + n <= m * n,
{
}

} // verus!
