//! The cube that reaches from -1 to 1 along each axis.
use super::intersection::{ordered_pair, views, Intersection, Intersections};
use super::plane::abs;
use super::prelude::{Shape, ShapeKind};
use crate::primitives::pixel::{max_of, max_spec};
use crate::primitives::ray::Ray;
use crate::primitives::scalar::{obeys_field, obeys_order, total_field, Scalar};
use crate::primitives::tmatrix::amath::{det_is_zero, invert_req, obeys_ring};
use crate::primitives::tmatrix::arithmetic::{abs_spec, identity_seq, lemma_identity_seq};
use crate::primitives::tmatrix::prelude::{one, spec_one, spec_zero, zero};
use crate::primitives::tmatrix::Matrix;
use crate::primitives::transformation_matrices::{lemma_dims_4, Matrix4x4};
use crate::primitives::vector::{vector, Vec4D};
use crate::shading::material::Material;
use std::ops::Neg;
use vstd::prelude::*;
use vstd::std_specs::cmp::{PartialEqSpec, PartialOrdIs};
use vstd::std_specs::convert::FromSpec;
use vstd::std_specs::ops::{DivSpec, NegSpec, SubSpec};

verus! {

/// The smaller of two scalars: the second unless the first is below it.
pub open spec fn min_spec<T: PartialOrd>(a: T, b: T) -> T {
    if a.is_lt(&b) {
        a
    } else {
        b
    }
}

/// The smaller of two scalars: the second unless the first is below it.
pub fn min_of<T: PartialOrd>(a: T, b: T) -> (r: T)
    ensures
        r == a || r == b,
        obeys_order::<T>() ==> r == min_spec(a, b),
{
    if a < b {
        a
    } else {
        b
    }
}

/// The parameters at which a ray enters and leaves the slab between the
/// planes at -1 and 1 of one axis: `(-1 - origin) / direction` and
/// `(1 - origin) / direction`, the lower first.
pub open spec fn slab<T: Scalar>(origin: T, direction: T) -> (T, T) {
    let tmin = spec_one::<T>().neg_spec().sub_spec(origin).div_spec(direction);
    let tmax = spec_one::<T>().sub_spec(origin).div_spec(direction);
    if tmin.is_gt(&tmax) {
        (tmax, tmin)
    } else {
        (tmin, tmax)
    }
}

/// The parameters at which a ray enters and leaves the slab of one axis.
pub fn check_axis<T: Scalar>(origin: T, direction: T) -> (r: (T, T))
    requires
        total_field::<T>(),
    ensures
        obeys_field::<T>() ==> r == slab(origin, direction),
{
    let o: T = one();
    let tmin_numerator = o.neg() - origin;
    let tmax_numerator = o - origin;
    let tmin = tmin_numerator / direction;
    let tmax = tmax_numerator / direction;
    if tmin > tmax {
        (tmax, tmin)
    } else {
        (tmin, tmax)
    }
}

/// The largest of three scalars.
pub fn trimax<T: Scalar>(a: T, b: T, c: T) -> (r: T)
    ensures
        r == a || r == b || r == c,
        obeys_order::<T>() ==> r == max_spec(a, max_spec(b, c)),
{
    max_of(a, max_of(b, c))
}

/// The smallest of three scalars.
pub fn trimin<T: Scalar>(a: T, b: T, c: T) -> (r: T)
    ensures
        r == a || r == b || r == c,
        obeys_order::<T>() ==> r == min_spec(a, min_spec(b, c)),
{
    min_of(a, min_of(b, c))
}

/// Where the ray is within all three slabs: from the latest entry to the
/// earliest exit.
pub open spec fn cube_span<T: Scalar>(origin: Seq<T>, direction: Seq<T>) -> (T, T) {
    let x = slab(origin[0], direction[0]);
    let y = slab(origin[1], direction[1]);
    let z = slab(origin[2], direction[2]);
    (max_spec(x.0, max_spec(y.0, z.0)), min_spec(x.1, min_spec(y.1, z.1)))
}

/// `r` is where a ray of object space meets the cube: nowhere if it leaves
/// one slab before it has entered all, else where it enters the last and
/// where it leaves the first.
pub open spec fn meets_cube<T: Scalar>(
    origin: Seq<T>,
    direction: Seq<T>,
    object: usize,
    r: Option<Seq<Intersection<T>>>,
) -> bool {
    let span = cube_span(origin, direction);
    if span.0.is_gt(&span.1) {
        r is None
    } else {
        r == Some(ordered_pair(span.0, span.1, object))
    }
}

/// Where a ray of object space meets the cube: nowhere if it leaves one
/// slab before it has entered all, else where it enters the last and where
/// it leaves the first.
pub fn intersect_cube<T: Scalar>(ray: &Ray<T>, object: usize) -> (r: Option<Intersections<T>>)
    requires
        total_field::<T>(),
        ray.wf(),
    ensures
        obeys_field::<T>() ==> meets_cube(ray.origin@, ray.direction@, object, views(r)),
        r matches Some(xs) ==> xs.is@.len() == 2 && xs.is@[0].object == object && xs.is@[1].object
            == object,
{
    proof {
        lemma_dims_4();
    }
    let (xtmin, xtmax) = check_axis(ray.origin.x(), ray.direction.x());
    let (ytmin, ytmax) = check_axis(ray.origin.y(), ray.direction.y());
    let (ztmin, ztmax) = check_axis(ray.origin.z(), ray.direction.z());
    let tmin = trimax(xtmin, ytmin, ztmin);
    let tmax = trimin(xtmax, ytmax, ztmax);
    if tmin > tmax {
        None
    } else {
        Some(Intersections::pair(tmin, tmax, object))
    }
}

/// The axis along which a point of the cube's surface lies furthest out:
/// 0 for x, 1 for y, 2 for z; the first of those that reach the largest
/// absolute value.
pub open spec fn face_axis<T: Scalar>(point: Seq<T>) -> int {
    let ax = abs_spec(point[0]);
    let ay = abs_spec(point[1]);
    let az = abs_spec(point[2]);
    let maxc = max_spec(ax, max_spec(ay, az));
    if maxc.eq_spec(&ax) {
        0
    } else if maxc.eq_spec(&ay) {
        1
    } else {
        2
    }
}

/// `n` is the normal of the cube in object space at a point of its
/// surface: the point's entry along the axis of the face, zero along the
/// others.
pub open spec fn is_cube_normal<T: Scalar>(point: Seq<T>, n: Seq<T>) -> bool {
    let k = face_axis(point);
    &&& n.len() == 4
    &&& n[k] == point[k]
    &&& forall|i: int| 0 <= i < 4 && i != k ==> n[i] == spec_zero::<T>()
}

/// The normal of the cube in object space at a point of its surface: the
/// point's entry along the axis of the face, zero along the others.
pub fn normal_cube<T: Scalar>(point: &Vec4D<T>) -> (r: Vec4D<T>)
    requires
        total_field::<T>(),
        point.wf(),
    ensures
        r.wf(),
        r@.len() == 4,
        obeys_field::<T>() && T::obeys_eq_spec() ==> is_cube_normal(point@, r@),
{
    proof {
        lemma_dims_4();
    }
    let ax = abs(point.x());
    let ay = abs(point.y());
    let az = abs(point.z());
    let maxc = trimax(ax, ay, az);
    if maxc == ax {
        vector(point.x(), zero(), zero())
    } else if maxc == ay {
        vector(zero(), point.y(), zero())
    } else {
        vector(zero(), zero(), point.z())
    }
}

impl<T: Scalar> Shape<T> {
    /// A cube; none where `transform` has no inverse.
    pub fn new_cube(material: Material<T>, transform: Matrix4x4<T>) -> (r: Option<Self>)
        requires
            transform.wf(),
            material.wf(),
            invert_req(transform@),
        ensures
            r matches Some(s) ==> s.wf() && s.kind == ShapeKind::Cube && s.material == material
                && s.placement.transform == transform,
            obeys_ring::<T>() && T::obeys_eq_spec() ==> (r is None <==> det_is_zero(transform@)),
    {
        Self::new(ShapeKind::Cube, material, transform)
    }

    /// The cube from -1 to 1, of matte white, placed by the identity
    /// matrix; none exactly where the determinant of that matrix, worked out
    /// with the scalar's operators, counts as zero.
    pub fn default_cube() -> (r: Option<Self>)
        requires
            total_field::<T>(),
        ensures
            obeys_ring::<T>() && T::obeys_eq_spec() ==> (r is None <==> det_is_zero(
                identity_seq::<T>(),
            )),
            r matches Some(s) ==> s.wf() && s.kind == ShapeKind::Cube && (obeys_field::<T>()
                ==> s.material == Material::<T>::spec_default() && s.placement.transform@
                == identity_seq::<T>()),
    {
        proof {
            lemma_dims_4();
        }
        let transform: Matrix4x4<T> = Matrix::identity();
        proof {
            if T::obeys_from_spec() {
                lemma_identity_seq(transform@);
            }
        }
        Self::new_cube(Material::default(), transform)
    }
}

} // verus!
