//! The plane through the origin that the x and z axes span.
use super::intersection::{views, Intersection, Intersections};
use super::prelude::{Shape, ShapeKind};
use crate::primitives::approx_eq::{epsilon, spec_epsilon};
use crate::primitives::ray::Ray;
use crate::primitives::scalar::{obeys_field, total_field, Scalar};
use crate::primitives::tmatrix::amath::{det_is_zero, invert_req, obeys_ring};
use crate::primitives::tmatrix::arithmetic::abs_spec;
use crate::primitives::tmatrix::prelude::{one, spec_one, spec_zero, zero};
use crate::primitives::transformation_matrices::{lemma_dims_4, Matrix4x4};
use crate::primitives::vector::{vector, Vec4D};
use crate::shading::material::Material;
use std::ops::Neg;
use vstd::prelude::*;
use vstd::std_specs::cmp::{PartialEqSpec, PartialOrdIs};
use vstd::std_specs::convert::FromSpec;
use vstd::std_specs::ops::{DivSpec, NegSpec};

verus! {

/// The absolute value of a scalar.
pub fn abs<T: Scalar>(x: T) -> (r: T)
    requires
        total_field::<T>(),
    ensures
        obeys_field::<T>() ==> r == abs_spec(x),
{
    let z: T = zero();
    if x < z {
        x.neg()
    } else {
        x
    }
}

/// The ray runs along the plane: the y entry of its direction is, up to
/// the allowed error, zero.
pub open spec fn runs_along_plane<T: Scalar>(direction: Seq<T>) -> bool {
    abs_spec(direction[1]).is_lt(&spec_epsilon::<T>())
}

/// The parameter at which a ray of object space meets the plane.
pub open spec fn plane_t<T: Scalar>(origin: Seq<T>, direction: Seq<T>) -> T {
    origin[1].neg_spec().div_spec(direction[1])
}

/// `r` is where a ray of object space meets the plane: nowhere if it runs
/// along the plane, else once.
pub open spec fn meets_plane<T: Scalar>(
    origin: Seq<T>,
    direction: Seq<T>,
    object: usize,
    r: Option<Seq<Intersection<T>>>,
) -> bool {
    if runs_along_plane(direction) {
        r is None
    } else {
        r == Some(seq![Intersection { t: plane_t(origin, direction), object }])
    }
}

/// Where a ray of object space meets the plane: nowhere if it runs along
/// the plane, else once.
pub fn intersect_plane<T: Scalar>(ray: &Ray<T>, object: usize) -> (r: Option<Intersections<T>>)
    requires
        total_field::<T>(),
        ray.wf(),
    ensures
        obeys_field::<T>() ==> meets_plane(ray.origin@, ray.direction@, object, views(r)),
        r matches Some(xs) ==> xs.is@.len() == 1 && xs.is@[0].object == object,
{
    proof {
        lemma_dims_4();
    }
    if abs(ray.direction.y()) < epsilon() {
        None
    } else {
        let t = ray.origin.y().neg() / ray.direction.y();
        Some(Intersections::single(t, object))
    }
}

/// A direction whose y entry is zero runs along the plane, provided that
/// zero is not below itself and lies below the allowed error.
pub proof fn lemma_parallel_ray_misses<T: Scalar>(direction: Seq<T>)
    requires
        direction[1] == spec_zero::<T>(),
        !spec_zero::<T>().is_lt(&spec_zero::<T>()),
        spec_zero::<T>().is_lt(&spec_epsilon::<T>()),
    ensures
        runs_along_plane(direction),
{
}

/// The normal of the plane in object space: straight up, wherever.
pub fn normal_plane<T: Scalar>() -> (r: Vec4D<T>)
    ensures
        r.wf(),
        r@.len() == 4,
        T::obeys_from_spec() ==> r@ == seq![
            spec_zero::<T>(),
            spec_one::<T>(),
            spec_zero::<T>(),
            spec_zero::<T>(),
        ],
{
    Vec4D::unit_y()
}

impl<T: Scalar> Shape<T> {
    /// A plane; none where `transform` has no inverse.
    pub fn new_plane(material: Material<T>, transform: Matrix4x4<T>) -> (r: Option<Self>)
        requires
            transform.wf(),
            material.wf(),
            invert_req(transform@),
        ensures
            r matches Some(s) ==> s.wf() && s.kind == ShapeKind::Plane && s.material == material
                && s.placement.transform == transform,
            obeys_ring::<T>() && T::obeys_eq_spec() ==> (r is None <==> det_is_zero(transform@)),
    {
        Self::new(ShapeKind::Plane, material, transform)
    }
}

} // verus!
