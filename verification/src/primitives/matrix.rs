//! Matrices whose dimensions are values: a grid of `width` columns and
//! `height` rows, addressed by column `x` and row `y`.
use super::canvas::{out_of_bounds, out_of_bounds_message, Axis};
use super::tmatrix::arithmetic::{dot, dot_entry, dot_req};
use super::tmatrix::iter::{col_len, col_of, lemma_col_position, row_of};
use super::tmatrix::prelude::{
    all_cloned_from, entry, is_default, lemma_row_major_bound, lemma_row_major_order, total_add,
    total_mul,
};
use std::ops::{Add, Index, Mul};
use vstd::prelude::*;
use vstd::std_specs::ops::{AddSpec, MulSpec};

verus! {

#[derive(Clone, Debug, PartialEq, PartialOrd)]
pub struct Matrix<T> {
    pub data: Vec<T>,
    pub width: usize,
    pub height: usize,
}

impl<T: Default + Clone> Matrix<T> {
    /// A matrix whose every entry is a clone of the scalar's default value.
    pub fn new(width: usize, height: usize) -> (r: Self)
        requires
            width * height <= usize::MAX,
        ensures
            r.wf(),
            r.width == width,
            r.height == height,
            exists|d: T| is_default(d) && all_cloned_from(r.data@, d),
    {
        let d: T = Default::default();
        let r = Matrix { width, height, data: vec![d; width * height] };
        assert(is_default(d) && all_cloned_from(r.data@, d));
        r
    }
}

impl<T> Matrix<T> {
    /// The buffer holds one entry for each place of the grid.
    pub open spec fn wf(&self) -> bool {
        self.data.len() == self.width * self.height
    }

    /// The entry in column `x` and row `y`.
    pub open spec fn at(&self, x: int, y: int) -> T {
        self.data@[self.width * y + x]
    }

    /// Convert a pair of coordinates matrix coordinates to an index into the data buffer
    pub fn as_one_dim(&self, x: usize, y: usize) -> (r: usize)
        requires
            self.width * y + x <= usize::MAX,
        ensures
            r == self.width * y + x,
    {
        assert(self.width * y >= 0) by (nonlinear_arith);
        self.width * y + x
    }

    /// The place of a cell of the grid lies in the buffer.
    pub proof fn lemma_in_bounds(&self, x: int, y: int)
        requires
            self.wf(),
            0 <= x < self.width,
            0 <= y < self.height,
        ensures
            0 <= self.width * y + x < self.data@.len(),
    {
        lemma_row_major_bound(self.height as int, self.width as int, y, x);
        assert(self.width * self.height == self.height * self.width) by (nonlinear_arith);
    }

    /// Set a single field in the matrix. Indices are checked: beyond the
    /// grid nothing is set, and the message says which coordinate is out of
    /// bounds.
    pub fn put(&mut self, x: usize, y: usize, data: T) -> (r: Result<(), String>)
        requires
            old(self).wf(),
            x >= old(self).width ==> old(self).width > 0,
            y >= old(self).height ==> old(self).height > 0,
        ensures
            final(self).wf(),
            final(self).width == old(self).width,
            final(self).height == old(self).height,
            r is Ok <==> x < old(self).width && y < old(self).height,
            r is Ok ==> final(self).data@ == old(self).data@.update(
                old(self).width * y + x,
                data,
            ),
            r matches Err(msg) ==> final(self).data@ == old(self).data@ && msg@ == if x
                >= old(self).width {
                out_of_bounds_message(Axis::X, (old(self).width - 1) as nat, x as nat)
            } else {
                out_of_bounds_message(Axis::Y, (old(self).height - 1) as nat, y as nat)
            },
    {
        if x < self.width {
            if y < self.height {
                proof {
                    self.lemma_in_bounds(x as int, y as int);
                }
                let i = self.as_one_dim(x, y);
                self.data[i] = data;
                Ok(())
            } else {
                Err(out_of_bounds(Axis::Y, self.height - 1, y))
            }
        } else {
            Err(out_of_bounds(Axis::X, self.width - 1, x))
        }
    }

    /// Read data at the given coordinates. Indices are checked
    pub fn get(&self, x: usize, y: usize) -> (r: Result<&T, String>)
        requires
            self.wf(),
            x >= self.width ==> self.width > 0,
            y >= self.height ==> self.height > 0,
        ensures
            r is Ok <==> x < self.width && y < self.height,
            r matches Ok(e) ==> *e == self.at(x as int, y as int),
            r matches Err(msg) ==> msg@ == if x >= self.width {
                out_of_bounds_message(Axis::X, (self.width - 1) as nat, x as nat)
            } else {
                out_of_bounds_message(Axis::Y, (self.height - 1) as nat, y as nat)
            },
    {
        if x < self.width {
            if y < self.height {
                proof {
                    self.lemma_in_bounds(x as int, y as int);
                }
                let i = self.as_one_dim(x, y);
                Ok(&self.data[i])
            } else {
                Err(out_of_bounds(Axis::Y, self.height - 1, y))
            }
        } else {
            Err(out_of_bounds(Axis::X, self.width - 1, x))
        }
    }

    pub fn iter(&self) -> (r: std::slice::Iter<'_, T>)
        ensures
            vstd::std_specs::slice::into_iter_elts(r) == self.data@,
    {
        let r = self.data.iter();
        proof {
            broadcast use vstd::std_specs::slice::axiom_spec_slice_iter;

            assert(self.data@.as_ref().unref() =~= self.data@);
        }
        r
    }

    /// Iterate over all the rows of the canvas
    pub fn iter_rows(&self) -> (r: Vec<Vec<&T>>)
        requires
            self.wf(),
        ensures
            r@.len() == self.height,
            forall|y: int|
                0 <= y < r@.len() ==> (#[trigger] r@[y])@.unref() == row_of(
                    self.data@,
                    self.width as int,
                    y,
                ),
    {
        let mut v: Vec<Vec<&T>> = Vec::new();
        let mut y: usize = 0;
        while y < self.height
            invariant
                self.wf(),
                y <= self.height,
                v@.len() == y,
                forall|k: int|
                    0 <= k < v@.len() ==> (#[trigger] v@[k])@.unref() == row_of(
                        self.data@,
                        self.width as int,
                        k,
                    ),
            decreases self.height - y,
        {
            let mut row: Vec<&T> = Vec::new();
            let mut x: usize = 0;
            while x < self.width
                invariant
                    self.wf(),
                    y < self.height,
                    x <= self.width,
                    row@.len() == x,
                    forall|k: int|
                        0 <= k < x ==> *#[trigger] row@[k] == self.data@[self.width * y + k],
                decreases self.width - x,
            {
                proof {
                    self.lemma_in_bounds(x as int, y as int);
                }
                row.push(&self.data[self.as_one_dim(x, y)]);
                x += 1;
            }
            proof {
                let w = self.width as int;
                assert(w * y + w <= w * self.height) by (nonlinear_arith)
                    requires
                        0 <= y < self.height,
                        w >= 0,
                ;
                assert(w * y >= 0) by (nonlinear_arith)
                    requires
                        0 <= y,
                        w >= 0,
                ;
                assert(row@.unref() =~= row_of(self.data@, w, y as int));
            }
            v.push(row);
            y += 1;
        }
        v
    }

    /// Iterate over all the columns of the canvas
    pub fn iter_columns(&self) -> (r: Vec<Vec<&T>>)
        requires
            self.wf(),
        ensures
            r@.len() == self.width,
            forall|x: int|
                0 <= x < r@.len() ==> (#[trigger] r@[x])@.len() == self.height && forall|y: int|
                    0 <= y < self.height ==> *(#[trigger] r@[x]@[y]) == self.at(x, y),
    {
        let mut v: Vec<Vec<&T>> = Vec::new();
        let mut x: usize = 0;
        while x < self.width
            invariant
                self.wf(),
                x <= self.width,
                v@.len() == x,
                forall|k: int|
                    0 <= k < v@.len() ==> (#[trigger] v@[k])@.len() == self.height && forall|
                        y: int,
                    | 0 <= y < self.height ==> *(#[trigger] v@[k]@[y]) == self.at(k, y),
            decreases self.width - x,
        {
            let mut col: Vec<&T> = Vec::new();
            let mut y: usize = 0;
            while y < self.height
                invariant
                    self.wf(),
                    x < self.width,
                    y <= self.height,
                    col@.len() == y,
                    forall|k: int| 0 <= k < y ==> *#[trigger] col@[k] == self.at(x as int, k),
                decreases self.height - y,
            {
                proof {
                    self.lemma_in_bounds(x as int, y as int);
                }
                col.push(&self.data[self.as_one_dim(x, y)]);
                y += 1;
            }
            v.push(col);
            x += 1;
        }
        v
    }
}

impl<T> vstd::std_specs::core::IndexSpecImpl<(usize, usize)> for Matrix<T> {
    open spec fn index_req(&self, index: &(usize, usize)) -> bool {
        self.width * index.1 + index.0 < self.data.len()
    }
}

impl<T> Index<(usize, usize)> for Matrix<T> {
    type Output = T;

    fn index(&self, coords: (usize, usize)) -> (r: &Self::Output)
        ensures
            *r == self.at(coords.0 as int, coords.1 as int),
    {
        let (x, y) = coords;
        assert(self.width * y >= 0) by (nonlinear_arith);
        &self.data[self.as_one_dim(x, y)]
    }
}

/// The products of a matrix product can all be computed: the scalar's `+`
/// and `*` are total, or they are specified and no step goes beyond what
/// they allow.
pub open spec fn grid_product_req<T: Add<Output = T> + Mul<Output = T>>(
    a: Matrix<T>,
    b: Matrix<T>,
) -> bool {
    a.width > 0 ==> (total_add::<T>() && total_mul::<T>()) || {
        &&& T::obeys_add_spec()
        &&& T::obeys_mul_spec()
        &&& forall|i: int, j: int|
            0 <= i < a.height && 0 <= j < b.width ==> #[trigger] dot_req(
                a.data@,
                b.data@,
                a.width as int,
                b.width as int,
                i,
                j,
                a.width as int,
            )
    }
}

impl<T: Copy + Default + Add<Output = T> + Mul<Output = T>> vstd::std_specs::ops::MulSpecImpl for Matrix<T> {
    /// The result is stated by the `ensures` of the operator itself.
    open spec fn obeys_mul_spec() -> bool {
        false
    }

    open spec fn mul_req(self, rhs: Matrix<T>) -> bool {
        &&& self.wf()
        &&& rhs.wf()
        &&& self.height * rhs.width <= usize::MAX
        &&& grid_product_req(self, rhs)
    }

    open spec fn mul_spec(self, rhs: Matrix<T>) -> Option<Matrix<T>> {
        arbitrary()
    }
}

/// The product of two matrices, if the first is as wide as the second is
/// high: a matrix as high as the first and as wide as the second.
impl<T: Copy + Default + Add<Output = T> + Mul<Output = T>> Mul for Matrix<T> {
    type Output = Option<Self>;

    fn mul(self, other: Self) -> (r: Self::Output)
        ensures
            r is Some <==> self.width == other.height,
            r matches Some(m) ==> {
                &&& m.wf()
                &&& m.height == self.height
                &&& m.width == other.width
                &&& self.width > 0 && T::obeys_add_spec() && T::obeys_mul_spec() ==> forall|
                    i: int,
                    j: int,
                |
                    0 <= i < m.height && 0 <= j < m.width ==> #[trigger] entry(
                        m.data@,
                        m.width as int,
                        i,
                        j,
                    ) == dot(
                        self.data@,
                        other.data@,
                        self.width as int,
                        other.width as int,
                        i,
                        j,
                        self.width as int,
                    )
                &&& self.width == 0 ==> forall|k: int|
                    0 <= k < m.data@.len() ==> is_default(#[trigger] m.data@[k])
            },
    {
        if self.width != other.height {
            return None;
        }
        let ma = self.height;
        let n = self.width;
        let nb = other.width;
        let mut v: Vec<T> = Vec::new();
        let mut i: usize = 0;
        while i < ma
            invariant
                self.wf(),
                other.wf(),
                ma * nb <= usize::MAX,
                grid_product_req(self, other),
                ma == self.height,
                n == self.width,
                n == other.height,
                nb == other.width,
                i <= ma,
                v@.len() == nb * i,
                n > 0 && T::obeys_add_spec() && T::obeys_mul_spec() ==> forall|x: int, y: int|
                    0 <= x < i && 0 <= y < nb ==> #[trigger] entry(v@, nb as int, x, y) == dot(
                        self.data@,
                        other.data@,
                        n as int,
                        nb as int,
                        x,
                        y,
                        n as int,
                    ),
                n == 0 ==> forall|k: int| 0 <= k < v@.len() ==> is_default(#[trigger] v@[k]),
            decreases ma - i,
        {
            let mut j: usize = 0;
            while j < nb
                invariant
                    self.wf(),
                    other.wf(),
                    ma * nb <= usize::MAX,
                    grid_product_req(self, other),
                    ma == self.height,
                    n == self.width,
                    n == other.height,
                    nb == other.width,
                    i < ma,
                    j <= nb,
                    v@.len() == nb * i + j,
                    n > 0 && T::obeys_add_spec() && T::obeys_mul_spec() ==> forall|x: int, y: int|
                        0 <= x && 0 <= y < nb && (x < i || (x == i && y < j)) ==> #[trigger] entry(
                            v@,
                            nb as int,
                            x,
                            y,
                        ) == dot(self.data@, other.data@, n as int, nb as int, x, y, n as int),
                    n == 0 ==> forall|k: int| 0 <= k < v@.len() ==> is_default(#[trigger] v@[k]),
                decreases nb - j,
            {
                let ghost before = v@;
                proof {
                    if n > 0 {
                        lemma_row_major_bound(ma as int, n as int, i as int, 0);
                        assert(n * ma == ma * n) by (nonlinear_arith);
                    }
                    lemma_row_major_bound(ma as int, nb as int, i as int, j as int);
                    assert(n * nb == nb * n) by (nonlinear_arith);
                }
                let e = if n > 0 {
                    dot_entry(&self.data, &other.data, n, nb, i, j)
                } else {
                    T::default()
                };
                v.push(e);
                proof {
                    assert forall|x: int, y: int|
                        0 <= x && 0 <= y < nb && (x < i || (x == i && y < j + 1)) && n > 0
                            && T::obeys_add_spec() && T::obeys_mul_spec() implies #[trigger] entry(
                        v@,
                        nb as int,
                        x,
                        y,
                    ) == dot(self.data@, other.data@, n as int, nb as int, x, y, n as int) by {
                        if x == i && y == j {
                        } else {
                            lemma_row_major_order(nb as int, x, y, i as int, j as int);
                            assert(entry(v@, nb as int, x, y) == entry(before, nb as int, x, y));
                        }
                    }
                }
                j += 1;
            }
            proof {
                assert(nb * (i + 1) == nb * i + nb) by (nonlinear_arith);
            }
            i += 1;
        }
        proof {
            assert(nb * ma == ma * nb) by (nonlinear_arith);
        }
        Some(Matrix { data: v, width: nb, height: ma })
    }
}

} // verus!
