//! Rays: a point of departure and a direction.
use super::scalar::Scalar;
use super::tmatrix::arithmetic::{
    add_elems, add_elems_req, add_vecs, is_product, mat_mul, mul_scalar, mul_scalar_req,
    mul_vec_scalar, product_req,
};
use super::tmatrix::prelude::total_add;
use super::tmatrix::Matrix;
use super::transformation_matrices::{lemma_dims_4, Matrix4x4};
use super::vector::Vec4D;
use vstd::prelude::*;
use vstd::std_specs::ops::{AddSpec, MulSpec};

verus! {

#[derive(Clone, Debug, PartialEq, PartialOrd)]
pub struct Ray<T> {
    pub origin: Vec4D<T>,
    pub direction: Vec4D<T>,
}

impl<T: Scalar> Ray<T> {
    /// Both the origin and the direction have four entries.
    pub open spec fn wf(&self) -> bool {
        self.origin.wf() && self.direction.wf()
    }

    pub fn new(origin: Vec4D<T>, direction: Vec4D<T>) -> (r: Self)
        ensures
            r.origin == origin,
            r.direction == direction,
    {
        Ray { origin, direction }
    }

    /// The point that the ray reaches at the parameter `t`: the origin plus
    /// `t` times the direction.
    pub fn position(&self, t: T) -> (p: Vec4D<T>)
        requires
            self.wf(),
            mul_scalar_req(self.direction@, t),
            total_add::<T>() || (T::obeys_mul_spec() && add_elems_req(
                self.origin@,
                mul_scalar(self.direction@, t),
            )),
        ensures
            p.wf(),
            T::obeys_add_spec() && T::obeys_mul_spec() ==> p@ == add_elems(
                self.origin@,
                mul_scalar(self.direction@, t),
            ),
    {
        let step = mul_vec_scalar(&self.direction.data, t);
        Matrix::from(add_vecs(&self.origin.data, &step))
    }

    /// The ray as the transformation sees it: its origin and its direction,
    /// each multiplied by the matrix from the left.
    pub fn transform(&self, transformation: &Matrix4x4<T>) -> (r: Self)
        requires
            self.wf(),
            transformation.wf(),
            product_req(transformation@, self.origin@, 4, 4, 1),
            product_req(transformation@, self.direction@, 4, 4, 1),
        ensures
            r.wf(),
            is_product(r.origin@, transformation@, self.origin@, 4, 4, 1),
            is_product(r.direction@, transformation@, self.direction@, 4, 4, 1),
    {
        proof {
            lemma_dims_4();
        }
        Self::new(mat_mul(transformation, &self.origin), mat_mul(transformation, &self.direction))
    }
}

} // verus!
