//! The shape type: a kind of surface, placed in the scene, with a material.
use crate::primitives::approx_eq::ApproxEq;
use crate::primitives::scalar::{obeys_field, total_field, Scalar};
use crate::primitives::tmatrix::amath::{
    det_is_zero, invert_req, is_inverse, obeys_ring, total_ring,
};
use crate::primitives::ray::Ray;
use crate::primitives::tmatrix::arithmetic::{
    div_scalar, is_norm_sq, is_product, mat_mul, product_req,
};
use crate::primitives::tmatrix::prelude::{entry, spec_zero, zero};
use crate::primitives::transformation_matrices::{lemma_dims_4, Matrix4x4};
use crate::primitives::vector::Vec4D;
use super::intersection::Intersections;
use super::render::{is_transposed, is_unit_of};
use crate::primitives::scalar::Elementary;
use crate::shading::material::Material;
use vstd::prelude::*;
use vstd::std_specs::cmp::PartialEqSpec;
use vstd::std_specs::ops::DivSpec;

verus! {

/// A transformation together with its inverse.
///
/// The inverse is computed when the placement is made, and a placement is
/// never changed: to place something anew, make a new placement.
#[derive(Clone, Debug)]
pub struct Placement<T> {
    pub transform: Matrix4x4<T>,
    pub inverse: Matrix4x4<T>,
}

impl<T: Scalar> Placement<T> {
    /// Both matrices are four by four, and the second is the inverse of the
    /// first.
    pub open spec fn wf(&self) -> bool {
        &&& self.transform.wf()
        &&& self.inverse.wf()
        &&& obeys_ring::<T>() && T::obeys_div_spec() ==> is_inverse(
            self.inverse@,
            self.transform@,
        )
    }

    /// The placement by `transform`; none where that matrix has no inverse.
    pub fn new(transform: Matrix4x4<T>) -> (r: Option<Self>)
        requires
            transform.wf(),
            invert_req(transform@),
        ensures
            r matches Some(p) ==> p.wf() && p.transform == transform,
            obeys_ring::<T>() && T::obeys_eq_spec() ==> (r is None <==> det_is_zero(transform@)),
    {
        match transform.invert() {
            Some(inverse) => Some(Placement { transform, inverse }),
            None => None,
        }
    }
}

/// The kinds of surface. Each is defined in a space of its own, object
/// space, around the origin.
#[derive(Clone, Copy, Debug, PartialEq, Eq, Structural)]
pub enum ShapeKind {
    /// The sphere of radius one around the origin.
    Sphere,
    /// The plane through the origin that the x and z axes span.
    Plane,
    /// The cube that reaches from -1 to 1 along each axis.
    Cube,
    /// The cylinder of radius one around the y axis, without end.
    Cylinder,
    /// The cylinder of radius one around the y axis, between y = -1 and
    /// y = 1, without caps.
    TruncatedCylinder,
}

/// A surface in the scene.
#[derive(Clone, Debug)]
pub struct Shape<T> {
    pub placement: Placement<T>,
    pub material: Material<T>,
    pub kind: ShapeKind,
}

impl<T: Scalar> Shape<T> {
    /// The placement and the material are well formed.
    pub open spec fn wf(&self) -> bool {
        self.placement.wf() && self.material.wf()
    }

    /// A shape of the given kind; none where `transform` has no inverse.
    pub fn new(kind: ShapeKind, material: Material<T>, transform: Matrix4x4<T>) -> (r: Option<
        Self,
    >)
        requires
            transform.wf(),
            material.wf(),
            invert_req(transform@),
        ensures
            r matches Some(s) ==> s.wf() && s.kind == kind && s.material == material
                && s.placement.transform == transform,
            obeys_ring::<T>() && T::obeys_eq_spec() ==> (r is None <==> det_is_zero(transform@)),
    {
        match Placement::new(transform) {
            Some(placement) => Some(Shape { placement, material, kind }),
            None => None,
        }
    }

    pub fn transform(&self) -> (r: &Matrix4x4<T>)
        ensures
            r == &self.placement.transform,
    {
        &self.placement.transform
    }

    pub fn inverse_transform(&self) -> (r: &Matrix4x4<T>)
        ensures
            r == &self.placement.inverse,
    {
        &self.placement.inverse
    }

    /// Place the shape anew. Where the matrix has no inverse, the shape
    /// stays as it is and `false` is returned.
    pub fn set_transform(&mut self, transformation: Matrix4x4<T>) -> (done: bool)
        requires
            old(self).wf(),
            transformation.wf(),
            invert_req(transformation@),
        ensures
            final(self).wf(),
            final(self).kind == old(self).kind,
            final(self).material == old(self).material,
            done ==> final(self).placement.transform == transformation,
            !done ==> final(self).placement == old(self).placement,
            obeys_ring::<T>() && T::obeys_eq_spec() ==> (done <==> !det_is_zero(transformation@)),
    {
        match Placement::new(transformation) {
            Some(placement) => {
                self.placement = placement;
                true
            },
            None => false,
        }
    }
}

impl<T: Scalar> Placement<T> {
    /// The placement by what `f` makes of the transformation; none where
    /// that has no inverse.
    pub fn modified<F: Fn(Matrix4x4<T>) -> Matrix4x4<T>>(&self, f: F) -> (r: Option<Self>)
        requires
            self.wf(),
            forall|t: Matrix4x4<T>| t@ == self.transform@ && t.wf() ==> call_requires(f, (t,)),
            forall|t: Matrix4x4<T>, u: Matrix4x4<T>|
                t@ == self.transform@ && call_ensures(f, (t,), u) ==> u.wf() && invert_req(u@),
        ensures
            exists|t: Matrix4x4<T>, u: Matrix4x4<T>|
                {
                    &&& t@ == self.transform@
                    &&& #[trigger] call_ensures(f, (t,), u)
                    &&& r matches Some(p) ==> p.wf() && p.transform == u
                    &&& obeys_ring::<T>() && T::obeys_eq_spec() ==> (r is None <==> det_is_zero(u@))
                },
    {
        let t = self.transform.copied();
        let u = f(t);
        let ghost made = u;
        let r = Placement::new(u);
        proof {
            assert(t@ == self.transform@ && call_ensures(f, (t,), made) && (r matches Some(p)
                ==> p.wf() && p.transform == made) && (obeys_ring::<T>() && T::obeys_eq_spec() ==> (
            r is None <==> det_is_zero(made@))));
        }
        r
    }
}

impl<T: Scalar> Shape<T> {
    /// Place the shape by what `f` makes of its transformation. Where that
    /// has no inverse, the shape stays as it is and `false` is returned.
    pub fn modify_transform<F: Fn(Matrix4x4<T>) -> Matrix4x4<T>>(&mut self, f: F) -> (done: bool)
        requires
            old(self).wf(),
            forall|t: Matrix4x4<T>|
                t@ == old(self).placement.transform@ && t.wf() ==> call_requires(f, (t,)),
            forall|t: Matrix4x4<T>, u: Matrix4x4<T>|
                t@ == old(self).placement.transform@ && call_ensures(f, (t,), u) ==> u.wf()
                    && invert_req(u@),
        ensures
            final(self).wf(),
            final(self).kind == old(self).kind,
            final(self).material == old(self).material,
            !done ==> final(self).placement == old(self).placement,
            exists|t: Matrix4x4<T>, u: Matrix4x4<T>|
                {
                    &&& t@ == old(self).placement.transform@
                    &&& #[trigger] call_ensures(f, (t,), u)
                    &&& done ==> final(self).placement.transform == u
                    &&& obeys_ring::<T>() && T::obeys_eq_spec() ==> (done <==> !det_is_zero(u@))
                },
    {
        match self.placement.modified(f) {
            Some(placement) => {
                self.placement = placement;
                true
            },
            None => false,
        }
    }
}

/// `ray2` is a ray as the shape sees it: its origin and its direction,
/// each multiplied from the left by the inverse of the shape's transformation.
pub open spec fn is_in_object_space<T: Scalar>(shape: Shape<T>, ray: Ray<T>, ray2: Ray<T>) -> bool {
    &&& ray2.wf()
    &&& is_product(ray2.origin@, shape.placement.inverse@, ray.origin@, 4, 4, 1)
    &&& is_product(ray2.direction@, shape.placement.inverse@, ray.direction@, 4, 4, 1)
}

/// What `f_intersect` finds for the ray, taken to the object space of the
/// shape.
pub fn base_shape_intersect<T: Scalar, F: Fn(&Shape<T>, Ray<T>) -> Option<Intersections<T>>>(
    shape: &Shape<T>,
    ray: &Ray<T>,
    f_intersect: F,
) -> (r: Option<Intersections<T>>)
    requires
        shape.wf(),
        ray.wf(),
        product_req(shape.placement.inverse@, ray.origin@, 4, 4, 1),
        product_req(shape.placement.inverse@, ray.direction@, 4, 4, 1),
        forall|ray2: Ray<T>|
            is_in_object_space(*shape, *ray, ray2) ==> call_requires(f_intersect, (shape, ray2)),
    ensures
        exists|ray2: Ray<T>| #[trigger]
            is_in_object_space(*shape, *ray, ray2) && call_ensures(f_intersect, (shape, ray2), r),
{
    let ray2 = ray.transform(shape.inverse_transform());
    let ghost seen = ray2;
    assert(is_in_object_space(*shape, *ray, ray2));
    let r = f_intersect(shape, ray2);
    proof {
        assert(is_in_object_space(*shape, *ray, seen) && call_ensures(
            f_intersect,
            (shape, seen),
            r,
        ));
    }
    r
}

/// `n` is the normal of world space that belongs to a normal `found` of
/// object space: `found`, multiplied from the left by the transposed inverse
/// of the shape's transformation, with its fourth entry put to zero, brought
/// to length one.
pub open spec fn is_world_normal<T: Scalar>(inverse: Seq<T>, found: Seq<T>, n: Seq<T>) -> bool {
    exists|transposed: Seq<T>, out: Seq<T>|
        {
            &&& is_transposed(transposed, inverse)
            &&& #[trigger] is_product(out, transposed, found, 4, 4, 1)
            &&& is_unit_of(out.update(3, spec_zero::<T>()), n)
        }
}

/// The normal of world space that belongs to the normal that
/// `f_object_normal` gives for the point, taken to the object space of the
/// shape.
pub fn base_shape_normal<T: Scalar, F: Fn(&Shape<T>, Vec4D<T>) -> Vec4D<T>>(
    shape: &Shape<T>,
    point: &Vec4D<T>,
    f_object_normal: F,
) -> (r: Vec4D<T>)
    requires
        total_field::<T>(),
        shape.wf(),
        point.wf(),
        forall|p: Vec4D<T>|
            p.wf() && is_product(p@, shape.placement.inverse@, point@, 4, 4, 1) ==> call_requires(
                f_object_normal,
                (shape, p),
            ),
        forall|p: Vec4D<T>, n: Vec4D<T>| call_ensures(f_object_normal, (shape, p), n) ==> n.wf(),
    ensures
        r.wf(),
        obeys_field::<T>() ==> exists|p: Vec4D<T>, n: Vec4D<T>|
            {
                &&& is_product(p@, shape.placement.inverse@, point@, 4, 4, 1)
                &&& #[trigger] call_ensures(f_object_normal, (shape, p), n)
                &&& is_world_normal(shape.placement.inverse@, n@, r@)
            },
{
    proof {
        lemma_dims_4();
    }
    let inverse = shape.inverse_transform();
    let object_point = mat_mul(inverse, point);
    let world_transform = inverse.transpose();
    let ghost local = object_point;
    let object_normal = f_object_normal(shape, object_point);
    let mut out = mat_mul(&world_transform, &object_normal);
    let ghost product = out@;
    out.set_w(zero());
    let ghost flat = out@;
    let r = out.unit();
    proof {
        if obeys_field::<T>() {
            assert(is_transposed(world_transform@, inverse@)) by {
                assert forall|i: int, j: int| 0 <= i < 4 && 0 <= j < 4 implies #[trigger] entry(
                    world_transform@,
                    4,
                    i,
                    j,
                ) == entry(inverse@, 4, j, i) by {
                    assert(world_transform.at(i, j) == inverse.at(j, i));
                }
            }
            assert(flat == product.update(3, spec_zero::<T>()));
            let (s, m): (T, T) = choose|s: T, m: T|
                {
                    &&& #[trigger] is_norm_sq(flat, s)
                    &&& #[trigger] call_ensures(T::sqrt, (s,), m)
                    &&& T::obeys_div_spec() ==> r@ == div_scalar(flat, m)
                };
            assert(is_norm_sq(flat, s) && call_ensures(T::sqrt, (s,), m) && r@ == div_scalar(
                flat,
                m,
            ));
            assert(is_unit_of(flat, r@));
            assert(is_transposed(world_transform@, inverse@) && is_product(
                product,
                world_transform@,
                object_normal@,
                4,
                4,
                1,
            ) && is_unit_of(product.update(3, spec_zero::<T>()), r@));
            assert(is_world_normal(inverse@, object_normal@, r@));
            assert(is_product(local@, shape.placement.inverse@, point@, 4, 4, 1) && call_ensures(
                f_object_normal,
                (shape, local),
                object_normal,
            ) && is_world_normal(shape.placement.inverse@, object_normal@, r@));
        }
    }
    r
}

impl<'a, T: Scalar> ApproxEq for &'a Shape<T> {
    open spec fn obeys_approx_eq() -> bool {
        <T as ApproxEq>::obeys_approx_eq()
    }

    open spec fn approx_eq_req(self, other: &'a Shape<T>) -> bool {
        &&& (&self.placement.transform).approx_eq_req(&other.placement.transform)
        &&& (&self.material).approx_eq_req(&other.material)
    }

    /// The transformations and the materials are the same up to the
    /// allowed error.
    open spec fn approx_eq_spec(self, other: &'a Shape<T>) -> bool {
        &&& (&self.placement.transform).approx_eq_spec(&other.placement.transform)
        &&& (&self.material).approx_eq_spec(&other.material)
    }

    fn approx_eq(self, other: &'a Shape<T>) -> (r: bool) {
        (&self.placement.transform).approx_eq(&other.placement.transform) && (
        &self.material).approx_eq(&other.material)
    }
}

} // verus!
