//! What every kind of shape does the same way: take the ray or the point to
//! object space, ask the kind, and bring the answer back.
use super::cube::{intersect_cube, is_cube_normal, meets_cube, normal_cube};
use super::cylinder::{
    cylinder_normal, intersect_cylinder, intersect_trunc, meets_capped, meets_cylinder,
    normal_cylinder,
};
use super::intersection::{views, Intersection, Intersections};
use super::plane::{intersect_plane, meets_plane, normal_plane};
use super::prelude::{
    base_shape_intersect, base_shape_normal, is_in_object_space, is_world_normal, Shape, ShapeKind,
};
use super::sphere::{
    intersect_sphere, meets_quadric, normal_sphere, origin_seq, sphere_quadratic,
};
use crate::primitives::ray::Ray;
use crate::primitives::scalar::{obeys_field, total_field, Elementary, Scalar};
use crate::primitives::tmatrix::arithmetic::{
    div_scalar, is_norm_sq, is_product, mat_mul, sub_elems,
};
use crate::primitives::tmatrix::prelude::{entry, spec_one, spec_zero, zero};
use crate::primitives::transformation_matrices::lemma_dims_4;
use crate::primitives::vector::Vec4D;
use vstd::prelude::*;
use vstd::std_specs::cmp::PartialEqSpec;
use vstd::std_specs::ops::DivSpec;

verus! {

/// `r` is where a ray of object space meets a surface of the given kind.
pub open spec fn meets_local<T: Scalar>(
    kind: ShapeKind,
    origin: Seq<T>,
    direction: Seq<T>,
    object: usize,
    r: Option<Seq<Intersection<T>>>,
) -> bool {
    match kind {
        ShapeKind::Sphere => meets_quadric(sphere_quadratic(origin, direction), object, r),
        ShapeKind::Plane => meets_plane(origin, direction, object, r),
        ShapeKind::Cube => meets_cube(origin, direction, object, r),
        ShapeKind::Cylinder => meets_cylinder(origin, direction, object, r),
        ShapeKind::TruncatedCylinder => meets_capped(origin, direction, object, r),
    }
}

/// `n` is the normal in object space of a surface of the given kind at a
/// point of it.
pub open spec fn is_local_normal<T: Scalar>(kind: ShapeKind, point: Seq<T>, n: Seq<T>) -> bool {
    match kind {
        ShapeKind::Sphere => n == sub_elems(point, origin_seq::<T>()),
        ShapeKind::Plane => n == seq![
            spec_zero::<T>(),
            spec_one::<T>(),
            spec_zero::<T>(),
            spec_zero::<T>(),
        ],
        ShapeKind::Cube => is_cube_normal(point, n),
        ShapeKind::Cylinder | ShapeKind::TruncatedCylinder => n == cylinder_normal(point),
    }
}

/// `r` is where a ray of world space meets a shape that is placed by a
/// transformation with the inverse `inverse`: where the ray, taken to
/// object space by the inverse, meets the surface.
pub open spec fn meets_shape<T: Scalar>(
    kind: ShapeKind,
    inverse: Seq<T>,
    origin: Seq<T>,
    direction: Seq<T>,
    object: usize,
    r: Option<Seq<Intersection<T>>>,
) -> bool {
    exists|o: Seq<T>, d: Seq<T>|
        {
            &&& is_product(o, inverse, origin, 4, 4, 1)
            &&& is_product(d, inverse, direction, 4, 4, 1)
            &&& #[trigger] meets_local(kind, o, d, object, r)
        }
}

/// `u` is the vector `v` brought to length one: `v` with each entry
/// divided by what the scalar's `sqrt` returned for the sum of the squares.
pub open spec fn is_unit_of<T: Scalar>(v: Seq<T>, u: Seq<T>) -> bool {
    exists|s: T, m: T|
        {
            &&& #[trigger] is_norm_sq(v, s)
            &&& #[trigger] call_ensures(T::sqrt, (s,), m)
            &&& u == div_scalar(v, m)
        }
}

/// `n` is the normal at a point of world space of a shape that is placed
/// by a transformation with the inverse `inverse`: the normal of object space
/// at the point taken there, multiplied by the transposed inverse, with its
/// fourth entry put to zero, brought to length one.
pub open spec fn is_normal_at<T: Scalar>(
    kind: ShapeKind,
    inverse: Seq<T>,
    point: Seq<T>,
    n: Seq<T>,
) -> bool {
    exists|local: Seq<T>, found: Seq<T>, transposed: Seq<T>, out: Seq<T>|
        {
            &&& is_product(local, inverse, point, 4, 4, 1)
            &&& #[trigger] is_local_normal(kind, local, found)
            &&& is_transposed(transposed, inverse)
            &&& #[trigger] is_product(out, transposed, found, 4, 4, 1)
            &&& is_unit_of(out.update(3, spec_zero::<T>()), n)
        }
}

/// `t` holds the four by four buffer `m` mirrored at its diagonal.
pub open spec fn is_transposed<T>(t: Seq<T>, m: Seq<T>) -> bool {
    &&& t.len() == 16
    &&& forall|i: int, j: int|
        0 <= i < 4 && 0 <= j < 4 ==> #[trigger] entry(t, 4, i, j) == entry(m, 4, j, i)
}

/// Where a ray of object space meets a surface of the given kind.
pub fn intersect_local<T: Scalar>(kind: ShapeKind, ray: &Ray<T>, object: usize) -> (r: Option<
    Intersections<T>,
>)
    requires
        total_field::<T>(),
        ray.wf(),
    ensures
        obeys_field::<T>() ==> meets_local(kind, ray.origin@, ray.direction@, object, views(r)),
        r matches Some(xs) ==> xs.is@.len() <= 2 && forall|k: int|
            0 <= k < xs.is@.len() ==> (#[trigger] xs.is@[k]).object == object,
{
    match kind {
        ShapeKind::Sphere => intersect_sphere(ray, object),
        ShapeKind::Plane => intersect_plane(ray, object),
        ShapeKind::Cube => intersect_cube(ray, object),
        ShapeKind::Cylinder => intersect_cylinder(ray, object),
        ShapeKind::TruncatedCylinder => intersect_trunc(ray, object),
    }
}

/// The normal in object space of a surface of the given kind, at a point
/// of it.
pub fn normal_local<T: Scalar>(kind: ShapeKind, point: &Vec4D<T>) -> (r: Vec4D<T>)
    requires
        total_field::<T>(),
        point.wf(),
    ensures
        r.wf(),
        r@.len() == 4,
        obeys_field::<T>() && T::obeys_eq_spec() ==> is_local_normal(kind, point@, r@),
{
    proof {
        lemma_dims_4();
    }
    match kind {
        ShapeKind::Sphere => normal_sphere(point),
        ShapeKind::Plane => normal_plane(),
        ShapeKind::Cube => normal_cube(point),
        ShapeKind::Cylinder | ShapeKind::TruncatedCylinder => normal_cylinder(point),
    }
}

impl<T: Scalar> Shape<T> {
    /// Where a ray of world space meets the shape. The ray is taken to
    /// object space by the inverse of the shape's transformation; `object`
    /// is the index under which the intersections name the shape.
    pub fn intersect(&self, object: usize, ray: &Ray<T>) -> (r: Option<Intersections<T>>)
        requires
            total_field::<T>(),
            self.wf(),
            ray.wf(),
        ensures
            obeys_field::<T>() ==> meets_shape(
                self.kind,
                self.placement.inverse@,
                ray.origin@,
                ray.direction@,
                object,
                views(r),
            ),
            r matches Some(xs) ==> xs.is@.len() <= 2 && forall|k: int|
                0 <= k < xs.is@.len() ==> (#[trigger] xs.is@[k]).object == object,
    {
        let kind = self.kind;
        let local = |shape: &Shape<T>, ray2: Ray<T>| -> (r: Option<Intersections<T>>)
            requires
                total_field::<T>(),
                ray2.wf(),
            ensures
                obeys_field::<T>() ==> meets_local(
                    kind,
                    ray2.origin@,
                    ray2.direction@,
                    object,
                    views(r),
                ),
                r matches Some(xs) ==> xs.is@.len() <= 2 && forall|k: int|
                    0 <= k < xs.is@.len() ==> (#[trigger] xs.is@[k]).object == object,
            { intersect_local(kind, &ray2, object) };
        let r = base_shape_intersect(self, ray, local);
        proof {
            let ray2 = choose|ray2: Ray<T>| #[trigger]
                is_in_object_space(*self, *ray, ray2) && call_ensures(local, (self, ray2), r);
            if obeys_field::<T>() {
                assert(is_product(ray2.origin@, self.placement.inverse@, ray.origin@, 4, 4, 1)
                    && is_product(ray2.direction@, self.placement.inverse@, ray.direction@, 4, 4, 1)
                    && meets_local(self.kind, ray2.origin@, ray2.direction@, object, views(r)));
            }
        }
        r
    }

    /// The normal of the shape at a point of world space that lies on it:
    /// the normal of object space, brought back by the transposed inverse
    /// of the shape's transformation, with its fourth entry put to zero, and
    /// of length one.
    pub fn normal_at(&self, point: &Vec4D<T>) -> (r: Vec4D<T>)
        requires
            total_field::<T>(),
            self.wf(),
            point.wf(),
        ensures
            r.wf(),
            r@.len() == 4,
            obeys_field::<T>() && T::obeys_eq_spec() ==> is_normal_at(
                self.kind,
                self.placement.inverse@,
                point@,
                r@,
            ),
    {
        proof {
            lemma_dims_4();
        }
        let kind = self.kind;
        let local = |shape: &Shape<T>, p: Vec4D<T>| -> (n: Vec4D<T>)
            requires
                total_field::<T>(),
                p.wf(),
            ensures
                n.wf(),
                obeys_field::<T>() && T::obeys_eq_spec() ==> is_local_normal(kind, p@, n@),
            { normal_local(kind, &p) };
        let r = base_shape_normal(self, point, local);
        proof {
            if obeys_field::<T>() && T::obeys_eq_spec() {
                let inverse = self.placement.inverse@;
                let (p, n): (Vec4D<T>, Vec4D<T>) = choose|p: Vec4D<T>, n: Vec4D<T>|
                    {
                        &&& is_product(p@, inverse, point@, 4, 4, 1)
                        &&& #[trigger] call_ensures(local, (self, p), n)
                        &&& is_world_normal(inverse, n@, r@)
                    };
                let (transposed, out): (Seq<T>, Seq<T>) = choose|transposed: Seq<T>, out: Seq<T>|
                    {
                        &&& is_transposed(transposed, inverse)
                        &&& #[trigger] is_product(out, transposed, n@, 4, 4, 1)
                        &&& is_unit_of(out.update(3, spec_zero::<T>()), r@)
                    };
                assert(is_product(p@, inverse, point@, 4, 4, 1) && is_local_normal(
                    self.kind,
                    p@,
                    n@,
                ) && is_transposed(transposed, inverse) && is_product(out, transposed, n@, 4, 4, 1)
                    && is_unit_of(out.update(3, spec_zero::<T>()), r@));
            }
        }
        r
    }
}

} // verus!
