//! Matrix Transformations
use super::scalar::{obeys_field, total_field, Elementary, Scalar};
use super::tmatrix::amath::lemma_small_dims;
use super::tmatrix::arithmetic::{is_product, mat_mul, product_req};
use super::tmatrix::prelude::{one, spec_one, spec_zero, total_add, total_mul, total_neg, zero};
use super::tmatrix::Matrix;
use super::vector::{cross_of, Vec4D};
use crate::utils::typelevel_nums::{Val, N1, N4};
use std::ops::{Add, Mul, Neg};
use vstd::prelude::*;
use vstd::std_specs::convert::FromSpec;
use vstd::std_specs::ops::{AddSpec, MulSpec, NegSpec};

verus! {

pub type Matrix4x4<T> = Matrix<T, N4, N4>;

/// A four by four matrix and a vector of four entries have sixteen and four
/// entries.
pub proof fn lemma_dims_4()
    ensures
        N1::spec_val() == 1,
        N4::spec_val() == 4,
        N4::spec_val() * N4::spec_val() == 16,
        N4::spec_val() * N1::spec_val() == 4,
        N1::spec_val() * N4::spec_val() == 4,
        N1::spec_val() * N1::spec_val() == 1,
{
    lemma_small_dims();
    assert(N4::spec_val() * N4::spec_val() == 16) by (nonlinear_arith)
        requires
            N4::spec_val() == 4,
    ;
    assert(N4::spec_val() * N1::spec_val() == 4 && N1::spec_val() * N4::spec_val() == 4
        && N1::spec_val() * N1::spec_val() == 1) by (nonlinear_arith)
        requires
            N4::spec_val() == 4,
            N1::spec_val() == 1,
    ;
}

/// The entries of the matrix that moves a point by `(x, y, z)`.
pub open spec fn translation_seq<T: From<i8>>(x: T, y: T, z: T) -> Seq<T> {
    let n = spec_zero::<T>();
    let o = spec_one::<T>();
    seq![o, n, n, x, n, o, n, y, n, n, o, z, n, n, n, o]
}

/// The entries of the matrix that scales by `(x, y, z)`.
pub open spec fn scaling_seq<T: From<i8>>(x: T, y: T, z: T) -> Seq<T> {
    let n = spec_zero::<T>();
    let o = spec_one::<T>();
    seq![x, n, n, n, n, y, n, n, n, n, z, n, n, n, n, o]
}

/// The entries of the matrix that shears each coordinate in proportion to
/// the two others.
pub open spec fn shear_seq<T: From<i8>>(xy: T, xz: T, yx: T, yz: T, zx: T, zy: T) -> Seq<T> {
    let n = spec_zero::<T>();
    let o = spec_one::<T>();
    seq![o, xy, xz, n, yx, o, yz, n, zx, zy, o, n, n, n, n, o]
}

/// The entries of the rotation around the x axis by the angle whose cosine
/// is `c` and whose sine is `s`.
pub open spec fn x_rotation_seq<T: From<i8> + Neg<Output = T>>(c: T, s: T) -> Seq<T> {
    let n = spec_zero::<T>();
    let o = spec_one::<T>();
    seq![o, n, n, n, n, c, s.neg_spec(), n, n, s, c, n, n, n, n, o]
}

/// The entries of the rotation around the y axis by the angle whose cosine
/// is `c` and whose sine is `s`.
pub open spec fn y_rotation_seq<T: From<i8> + Neg<Output = T>>(c: T, s: T) -> Seq<T> {
    let n = spec_zero::<T>();
    let o = spec_one::<T>();
    seq![c, n, s, n, n, o, n, n, s.neg_spec(), n, c, n, n, n, n, o]
}

/// The entries of the rotation around the z axis by the angle whose cosine
/// is `c` and whose sine is `s`.
pub open spec fn z_rotation_seq<T: From<i8> + Neg<Output = T>>(c: T, s: T) -> Seq<T> {
    let n = spec_zero::<T>();
    let o = spec_one::<T>();
    seq![c, s.neg_spec(), n, n, s, c, n, n, n, n, o, n, n, n, n, o]
}

/// `c` and `s` are what the scalar's `cos` and `sin` return for `r`.
pub open spec fn is_cos_sin<T: Elementary>(r: T, c: T, s: T) -> bool {
    call_ensures(T::cos, (r,), c) && call_ensures(T::sin, (r,), s)
}

impl<T: From<i8> + Copy> Matrix4x4<T> {
    /// Translate in space
    pub fn new_translation(x: T, y: T, z: T) -> (r: Self)
        ensures
            r.wf(),
            T::obeys_from_spec() ==> r@ == translation_seq(x, y, z),
    {
        proof {
            lemma_dims_4();
        }
        let n: T = zero();
        let o: T = one();
        let r = Matrix::from(vec![o, n, n, x, n, o, n, y, n, n, o, z, n, n, n, o]);
        assert(T::obeys_from_spec() ==> r@ =~= translation_seq(x, y, z));
        r
    }

    /// Scale (in relation to the origin)
    pub fn new_scaling(x: T, y: T, z: T) -> (r: Self)
        ensures
            r.wf(),
            T::obeys_from_spec() ==> r@ == scaling_seq(x, y, z),
    {
        proof {
            lemma_dims_4();
        }
        let n: T = zero();
        let o: T = one();
        let r = Matrix::from(vec![x, n, n, n, n, y, n, n, n, n, z, n, n, n, n, o]);
        assert(T::obeys_from_spec() ==> r@ =~= scaling_seq(x, y, z));
        r
    }

    /// Shear: x in proportion to y, x in proportion to z
    pub fn new_shear(xy: T, xz: T, yx: T, yz: T, zx: T, zy: T) -> (r: Self)
        ensures
            r.wf(),
            T::obeys_from_spec() ==> r@ == shear_seq(xy, xz, yx, yz, zx, zy),
    {
        proof {
            lemma_dims_4();
        }
        let n: T = zero();
        let o: T = one();
        let r = Matrix::from(vec![o, xy, xz, n, yx, o, yz, n, zx, zy, o, n, n, n, n, o]);
        assert(T::obeys_from_spec() ==> r@ =~= shear_seq(xy, xz, yx, yz, zx, zy));
        r
    }
}

impl<T: From<i8> + Neg<Output = T> + Elementary + Copy> Matrix4x4<T> {
    /// Rotate around the x axis by r radians
    pub fn new_x_rotation(r: T) -> (m: Self)
        requires
            total_neg::<T>(),
        ensures
            m.wf(),
            exists|c: T, s: T|
                #[trigger] is_cos_sin(r, c, s) && (T::obeys_from_spec() && T::obeys_neg_spec() ==> m@
                    == x_rotation_seq(c, s)),
    {
        proof {
            lemma_dims_4();
        }
        let n: T = zero();
        let o: T = one();
        let c = r.cos();
        let s = r.sin();
        let ms = s.neg();
        let m = Matrix::from(vec![o, n, n, n, n, c, ms, n, n, s, c, n, n, n, n, o]);
        assert(T::obeys_from_spec() && T::obeys_neg_spec() ==> m@ =~= x_rotation_seq(c, s));
        assert(is_cos_sin(r, c, s) && (T::obeys_from_spec() && T::obeys_neg_spec() ==> m@
            == x_rotation_seq(c, s)));
        m
    }

    /// Rotate around the y axis by r radians
    pub fn new_y_rotation(r: T) -> (m: Self)
        requires
            total_neg::<T>(),
        ensures
            m.wf(),
            exists|c: T, s: T|
                #[trigger] is_cos_sin(r, c, s) && (T::obeys_from_spec() && T::obeys_neg_spec() ==> m@
                    == y_rotation_seq(c, s)),
    {
        proof {
            lemma_dims_4();
        }
        let n: T = zero();
        let o: T = one();
        let c = r.cos();
        let s = r.sin();
        let ms = s.neg();
        let m = Matrix::from(vec![c, n, s, n, n, o, n, n, ms, n, c, n, n, n, n, o]);
        assert(T::obeys_from_spec() && T::obeys_neg_spec() ==> m@ =~= y_rotation_seq(c, s));
        assert(is_cos_sin(r, c, s) && (T::obeys_from_spec() && T::obeys_neg_spec() ==> m@
            == y_rotation_seq(c, s)));
        m
    }

    /// Rotate around the z axis by r radians
    pub fn new_z_rotation(r: T) -> (m: Self)
        requires
            total_neg::<T>(),
        ensures
            m.wf(),
            exists|c: T, s: T|
                #[trigger] is_cos_sin(r, c, s) && (T::obeys_from_spec() && T::obeys_neg_spec() ==> m@
                    == z_rotation_seq(c, s)),
    {
        proof {
            lemma_dims_4();
        }
        let n: T = zero();
        let o: T = one();
        let c = r.cos();
        let s = r.sin();
        let ms = s.neg();
        let m = Matrix::from(vec![c, ms, n, n, s, c, n, n, n, n, o, n, n, n, n, o]);
        assert(T::obeys_from_spec() && T::obeys_neg_spec() ==> m@ =~= z_rotation_seq(c, s));
        assert(is_cos_sin(r, c, s) && (T::obeys_from_spec() && T::obeys_neg_spec() ==> m@
            == z_rotation_seq(c, s)));
        m
    }

}

impl<T> Vec4D<T> where T: From<i8> + Default + Copy + Add<Output = T> + Mul<Output = T> {
    /// Translate in space
    pub fn translate(&self, x: T, y: T, z: T) -> (r: Self)
        requires
            self.wf(),
            (total_add::<T>() && total_mul::<T>()) || T::obeys_from_spec(),
            product_req(translation_seq(x, y, z), self@, 4, 4, 1),
        ensures
            r.wf(),
            T::obeys_from_spec() ==> is_product(r@, translation_seq(x, y, z), self@, 4, 4, 1),
    {
        proof {
            lemma_dims_4();
        }
        let a = Matrix::new_translation(x, y, z);
        mat_mul(&a, self)
    }

    /// Scale (in relation to the origin)
    pub fn scale(&self, x: T, y: T, z: T) -> (r: Self)
        requires
            self.wf(),
            (total_add::<T>() && total_mul::<T>()) || T::obeys_from_spec(),
            product_req(scaling_seq(x, y, z), self@, 4, 4, 1),
        ensures
            r.wf(),
            T::obeys_from_spec() ==> is_product(r@, scaling_seq(x, y, z), self@, 4, 4, 1),
    {
        proof {
            lemma_dims_4();
        }
        let a = Matrix::new_scaling(x, y, z);
        mat_mul(&a, self)
    }

    /// Shear: x in proportion to y, x in proportion to z
    pub fn shear(&self, xy: T, xz: T, yx: T, yz: T, zx: T, zy: T) -> (r: Self)
        requires
            self.wf(),
            (total_add::<T>() && total_mul::<T>()) || T::obeys_from_spec(),
            product_req(shear_seq(xy, xz, yx, yz, zx, zy), self@, 4, 4, 1),
        ensures
            r.wf(),
            T::obeys_from_spec() ==> is_product(r@, shear_seq(xy, xz, yx, yz, zx, zy), self@, 4, 4, 1),
    {
        proof {
            lemma_dims_4();
        }
        let a = Matrix::new_shear(xy, xz, yx, yz, zx, zy);
        mat_mul(&a, self)
    }

}

impl<T> Vec4D<T> where T: From<i8> + Neg<Output = T> + Elementary + Default + Copy + Add<Output = T> + Mul<Output = T> {
    /// Rotate around the x axis by r radians
    pub fn rotate_x(&self, r: T) -> (m: Self)
        requires
            self.wf(),
            total_add::<T>(),
            total_mul::<T>(),
            total_neg::<T>(),
        ensures
            m.wf(),
            exists|c: T, s: T|
                #[trigger] is_cos_sin(r, c, s) && (T::obeys_from_spec() && T::obeys_neg_spec() ==> is_product(
                    m@,
                    x_rotation_seq(c, s),
                    self@,
                    4,
                    4,
                    1,
                )),
    {
        proof {
            lemma_dims_4();
        }
        let a = Matrix::new_x_rotation(r);
        mat_mul(&a, self)
    }

    /// Rotate around the y axis by r radians
    pub fn rotate_y(&self, r: T) -> (m: Self)
        requires
            self.wf(),
            total_add::<T>(),
            total_mul::<T>(),
            total_neg::<T>(),
        ensures
            m.wf(),
            exists|c: T, s: T|
                #[trigger] is_cos_sin(r, c, s) && (T::obeys_from_spec() && T::obeys_neg_spec() ==> is_product(
                    m@,
                    y_rotation_seq(c, s),
                    self@,
                    4,
                    4,
                    1,
                )),
    {
        proof {
            lemma_dims_4();
        }
        let a = Matrix::new_y_rotation(r);
        mat_mul(&a, self)
    }

    /// Rotate around the z axis by r radians
    pub fn rotate_z(&self, r: T) -> (m: Self)
        requires
            self.wf(),
            total_add::<T>(),
            total_mul::<T>(),
            total_neg::<T>(),
        ensures
            m.wf(),
            exists|c: T, s: T|
                #[trigger] is_cos_sin(r, c, s) && (T::obeys_from_spec() && T::obeys_neg_spec() ==> is_product(
                    m@,
                    z_rotation_seq(c, s),
                    self@,
                    4,
                    4,
                    1,
                )),
    {
        proof {
            lemma_dims_4();
        }
        let a = Matrix::new_z_rotation(r);
        mat_mul(&a, self)
    }

}

impl<T> Vec4D<T> where T: From<i8> + Default + Copy + Add<Output = T> + Mul<Output = T> {
    /// Translate in space
    pub fn translate_mut(&mut self, x: T, y: T, z: T)
        requires
            old(self).wf(),
            (total_add::<T>() && total_mul::<T>()) || T::obeys_from_spec(),
            product_req(translation_seq(x, y, z), old(self)@, 4, 4, 1),
        ensures
            final(self).wf(),
            T::obeys_from_spec() ==> is_product(
                final(self)@,
                translation_seq(x, y, z),
                old(self)@,
                4,
                4,
                1,
            ),
    {
        proof {
            lemma_dims_4();
        }
        let a = Matrix::new_translation(x, y, z);
        let new = mat_mul(&a, self);
        *self = new;
    }

    /// Scale (in relation to the origin)
    pub fn scale_mut(&mut self, x: T, y: T, z: T)
        requires
            old(self).wf(),
            (total_add::<T>() && total_mul::<T>()) || T::obeys_from_spec(),
            product_req(scaling_seq(x, y, z), old(self)@, 4, 4, 1),
        ensures
            final(self).wf(),
            T::obeys_from_spec() ==> is_product(
                final(self)@,
                scaling_seq(x, y, z),
                old(self)@,
                4,
                4,
                1,
            ),
    {
        proof {
            lemma_dims_4();
        }
        let a = Matrix::new_scaling(x, y, z);
        let new = mat_mul(&a, self);
        *self = new;
    }

    /// Shear: x in proportion to y, x in proportion to z
    pub fn shear_mut(&mut self, xy: T, xz: T, yx: T, yz: T, zx: T, zy: T)
        requires
            old(self).wf(),
            (total_add::<T>() && total_mul::<T>()) || T::obeys_from_spec(),
            product_req(shear_seq(xy, xz, yx, yz, zx, zy), old(self)@, 4, 4, 1),
        ensures
            final(self).wf(),
            T::obeys_from_spec() ==> is_product(
                final(self)@,
                shear_seq(xy, xz, yx, yz, zx, zy),
                old(self)@,
                4,
                4,
                1,
            ),
    {
        proof {
            lemma_dims_4();
        }
        let a = Matrix::new_shear(xy, xz, yx, yz, zx, zy);
        let new = mat_mul(&a, self);
        *self = new;
    }

}

impl<T> Vec4D<T> where T: From<i8> + Neg<Output = T> + Elementary + Default + Copy + Add<Output = T> + Mul<Output = T> {
    /// Rotate around the x axis by r radians
    pub fn rotate_x_mut(&mut self, r: T)
        requires
            old(self).wf(),
            total_add::<T>(),
            total_mul::<T>(),
            total_neg::<T>(),
        ensures
            final(self).wf(),
            exists|c: T, s: T|
                #[trigger] is_cos_sin(r, c, s) && (T::obeys_from_spec() && T::obeys_neg_spec() ==> is_product(
                    final(self)@,
                    x_rotation_seq(c, s),
                    old(self)@,
                    4,
                    4,
                    1,
                )),
    {
        proof {
            lemma_dims_4();
        }
        let a = Matrix::new_x_rotation(r);
        let new = mat_mul(&a, self);
        *self = new;
    }

    /// Rotate around the y axis by r radians
    pub fn rotate_y_mut(&mut self, r: T)
        requires
            old(self).wf(),
            total_add::<T>(),
            total_mul::<T>(),
            total_neg::<T>(),
        ensures
            final(self).wf(),
            exists|c: T, s: T|
                #[trigger] is_cos_sin(r, c, s) && (T::obeys_from_spec() && T::obeys_neg_spec() ==> is_product(
                    final(self)@,
                    y_rotation_seq(c, s),
                    old(self)@,
                    4,
                    4,
                    1,
                )),
    {
        proof {
            lemma_dims_4();
        }
        let a = Matrix::new_y_rotation(r);
        let new = mat_mul(&a, self);
        *self = new;
    }

    /// Rotate around the z axis by r radians
    pub fn rotate_z_mut(&mut self, r: T)
        requires
            old(self).wf(),
            total_add::<T>(),
            total_mul::<T>(),
            total_neg::<T>(),
        ensures
            final(self).wf(),
            exists|c: T, s: T|
                #[trigger] is_cos_sin(r, c, s) && (T::obeys_from_spec() && T::obeys_neg_spec() ==> is_product(
                    final(self)@,
                    z_rotation_seq(c, s),
                    old(self)@,
                    4,
                    4,
                    1,
                )),
    {
        proof {
            lemma_dims_4();
        }
        let a = Matrix::new_z_rotation(r);
        let new = mat_mul(&a, self);
        *self = new;
    }

}

impl<T> Matrix4x4<T> where T: From<i8> + Neg<Output = T> + Elementary + Default + Copy + Add<Output = T> + Mul<Output = T> {
    /// Rotate around the x axis by r radians, after what the matrix does
    pub fn and_rotate_x(self, r: T) -> (m: Self)
        requires
            self.wf(),
            total_add::<T>(),
            total_mul::<T>(),
            total_neg::<T>(),
        ensures
            m.wf(),
            exists|c: T, s: T|
                #[trigger] is_cos_sin(r, c, s) && (T::obeys_from_spec() && T::obeys_neg_spec() ==> is_product(
                    m@,
                    x_rotation_seq(c, s),
                    self@,
                    4,
                    4,
                    4,
                )),
    {
        proof {
            lemma_dims_4();
        }
        let a = Matrix::new_x_rotation(r);
        mat_mul(&a, &self)
    }

    /// Rotate around the y axis by r radians, after what the matrix does
    pub fn and_rotate_y(self, r: T) -> (m: Self)
        requires
            self.wf(),
            total_add::<T>(),
            total_mul::<T>(),
            total_neg::<T>(),
        ensures
            m.wf(),
            exists|c: T, s: T|
                #[trigger] is_cos_sin(r, c, s) && (T::obeys_from_spec() && T::obeys_neg_spec() ==> is_product(
                    m@,
                    y_rotation_seq(c, s),
                    self@,
                    4,
                    4,
                    4,
                )),
    {
        proof {
            lemma_dims_4();
        }
        let a = Matrix::new_y_rotation(r);
        mat_mul(&a, &self)
    }

    /// Rotate around the z axis by r radians, after what the matrix does
    pub fn and_rotate_z(self, r: T) -> (m: Self)
        requires
            self.wf(),
            total_add::<T>(),
            total_mul::<T>(),
            total_neg::<T>(),
        ensures
            m.wf(),
            exists|c: T, s: T|
                #[trigger] is_cos_sin(r, c, s) && (T::obeys_from_spec() && T::obeys_neg_spec() ==> is_product(
                    m@,
                    z_rotation_seq(c, s),
                    self@,
                    4,
                    4,
                    4,
                )),
    {
        proof {
            lemma_dims_4();
        }
        let a = Matrix::new_z_rotation(r);
        mat_mul(&a, &self)
    }

}

impl<T> Matrix4x4<T> where T: From<i8> + Default + Copy + Add<Output = T> + Mul<Output = T> {
    /// Translate in space, after what the matrix does
    pub fn and_translate(self, x: T, y: T, z: T) -> (r: Self)
        requires
            self.wf(),
            (total_add::<T>() && total_mul::<T>()) || T::obeys_from_spec(),
            product_req(translation_seq(x, y, z), self@, 4, 4, 4),
        ensures
            r.wf(),
            T::obeys_from_spec() ==> is_product(r@, translation_seq(x, y, z), self@, 4, 4, 4),
    {
        proof {
            lemma_dims_4();
        }
        let a = Matrix::new_translation(x, y, z);
        mat_mul(&a, &self)
    }

    /// Scale (in relation to the origin), after what the matrix does
    pub fn and_scale(self, x: T, y: T, z: T) -> (r: Self)
        requires
            self.wf(),
            (total_add::<T>() && total_mul::<T>()) || T::obeys_from_spec(),
            product_req(scaling_seq(x, y, z), self@, 4, 4, 4),
        ensures
            r.wf(),
            T::obeys_from_spec() ==> is_product(r@, scaling_seq(x, y, z), self@, 4, 4, 4),
    {
        proof {
            lemma_dims_4();
        }
        let a = Matrix::new_scaling(x, y, z);
        mat_mul(&a, &self)
    }

    /// Shear: x in proportion to y, x in proportion to z, after what the matrix does
    pub fn and_shear(self, xy: T, xz: T, yx: T, yz: T, zx: T, zy: T) -> (r: Self)
        requires
            self.wf(),
            (total_add::<T>() && total_mul::<T>()) || T::obeys_from_spec(),
            product_req(shear_seq(xy, xz, yx, yz, zx, zy), self@, 4, 4, 4),
        ensures
            r.wf(),
            T::obeys_from_spec() ==> is_product(r@, shear_seq(xy, xz, yx, yz, zx, zy), self@, 4, 4, 4),
    {
        proof {
            lemma_dims_4();
        }
        let a = Matrix::new_shear(xy, xz, yx, yz, zx, zy);
        mat_mul(&a, &self)
    }

}

/// The entries of the orientation of a camera that looks along `forward`,
/// with `left` to its left and `true_up` above it: the three directions as
/// rows, the direction of view negated.
pub open spec fn orientation_seq<T: From<i8> + Neg<Output = T>>(
    left: Seq<T>,
    true_up: Seq<T>,
    forward: Seq<T>,
) -> Seq<T> {
    let n = spec_zero::<T>();
    let o = spec_one::<T>();
    seq![
        left[0],
        left[1],
        left[2],
        n,
        true_up[0],
        true_up[1],
        true_up[2],
        n,
        forward[0].neg_spec(),
        forward[1].neg_spec(),
        forward[2].neg_spec(),
        n,
        n,
        n,
        n,
        o,
    ]
}

impl<T: Scalar> Matrix4x4<T> {
    /// See [`view`].
    pub fn new_view(from: &Vec4D<T>, to: &Vec4D<T>, up: &Vec4D<T>) -> (m: Self)
        requires
            total_field::<T>(),
            from.wf(),
            to.wf(),
            up.wf(),
        ensures
            m.wf(),
            obeys_field::<T>() ==> exists|left: Seq<T>, true_up: Seq<T>, forward: Seq<T>| #[trigger]
                is_product(
                    m@,
                    orientation_seq(left, true_up, forward),
                    translation_seq(from@[0].neg_spec(), from@[1].neg_spec(), from@[2].neg_spec()),
                    4,
                    4,
                    4,
                ),
    {
        view(from, to, up)
    }
}

/// The transformation that takes world space to the space of a camera at
/// `from` that looks at `to`, with `up` above it: in that space the eye is
/// at the origin and looks down the negative z axis.
///
/// With `forward` the unit vector from `from` to `to`, `left` the unit
/// vector of `up x forward` and `true_up = forward x left`, it is the
/// orientation (see [`orientation_seq`]) after the translation by `-from`.
pub fn view<T: Scalar>(from: &Vec4D<T>, to: &Vec4D<T>, up: &Vec4D<T>) -> (m: Matrix4x4<T>)
    requires
        total_field::<T>(),
        from.wf(),
        to.wf(),
        up.wf(),
    ensures
        m.wf(),
        obeys_field::<T>() ==> exists|left: Seq<T>, true_up: Seq<T>, forward: Seq<T>| #[trigger]
            is_product(
                m@,
                orientation_seq(left, true_up, forward),
                translation_seq(from@[0].neg_spec(), from@[1].neg_spec(), from@[2].neg_spec()),
                4,
                4,
                4,
            ),
{
    proof {
        lemma_dims_4();
    }
    let n: T = zero();
    let o: T = one();
    let forward = (to - from).unit();
    let left = cross_of(up, &forward).unit();
    let true_up = cross_of(&forward, &left);
    let orientation = Matrix4x4::from(
        vec![
            left.x(),
            left.y(),
            left.z(),
            n,
            true_up.x(),
            true_up.y(),
            true_up.z(),
            n,
            forward.x().neg(),
            forward.y().neg(),
            forward.z().neg(),
            n,
            n,
            n,
            n,
            o,
        ],
    );
    let shift = Matrix4x4::new_translation(from.x().neg(), from.y().neg(), from.z().neg());
    let m = mat_mul(&orientation, &shift);
    proof {
        if obeys_field::<T>() {
            assert(orientation@ =~= orientation_seq(left@, true_up@, forward@));
            assert(is_product(
                m@,
                orientation_seq(left@, true_up@, forward@),
                translation_seq(from@[0].neg_spec(), from@[1].neg_spec(), from@[2].neg_spec()),
                4,
                4,
                4,
            ));
        }
    }
    m
}

} // verus!
