//! The sphere of radius one around the origin.
use super::intersection::{ordered_pair, views, Intersection, Intersections};
use super::prelude::{Shape, ShapeKind};
use crate::primitives::ray::Ray;
use crate::primitives::scalar::{obeys_field, obeys_order, total_field, Elementary, Scalar};
use crate::primitives::tmatrix::amath::{det_is_zero, invert_req, obeys_ring};
use crate::primitives::tmatrix::arithmetic::{identity_seq, lemma_identity_seq, sub_elems};
use crate::primitives::tmatrix::prelude::{one, spec_one, spec_zero, zero};
use crate::primitives::tmatrix::Matrix;
use crate::primitives::transformation_matrices::{lemma_dims_4, Matrix4x4};
use crate::primitives::vector::{scalar_prod_of, scalar_prod_seq, Vec4D};
use crate::shading::material::Material;
use std::ops::Neg;
use vstd::prelude::*;
use vstd::std_specs::cmp::{PartialEqSpec, PartialOrdIs};
use vstd::std_specs::convert::FromSpec;
use vstd::std_specs::ops::{AddSpec, DivSpec, MulSpec, NegSpec, SubSpec};

verus! {

/// The entries of the point that all coordinates are measured from.
pub open spec fn origin_seq<T: Scalar>() -> Seq<T> {
    seq![spec_zero::<T>(), spec_zero::<T>(), spec_zero::<T>(), spec_one::<T>()]
}

/// The coefficients `(a, b, c)` of the quadratic equation in the ray's
/// parameter that says "the point lies on the sphere":
/// `a = D·D`, `b = 2 D·O'`, `c = O'·O' - 1`, with `O'` the ray's origin as
/// seen from the centre.
pub open spec fn sphere_quadratic<T: Scalar>(origin: Seq<T>, direction: Seq<T>) -> (T, T, T) {
    let from_centre = sub_elems(origin, origin_seq::<T>());
    (
        scalar_prod_seq(direction, direction),
        T::from_spec(2i8).mul_spec(scalar_prod_seq(direction, from_centre)),
        scalar_prod_seq(from_centre, from_centre).sub_spec(spec_one::<T>()),
    )
}

/// The discriminant `b² - 4ac` of a quadratic equation.
pub open spec fn discriminant<T: Scalar>(q: (T, T, T)) -> T {
    q.1.mul_spec(q.1).sub_spec(T::from_spec(4i8).mul_spec(q.0).mul_spec(q.2))
}

/// The two roots `(-b ∓ root) / 2a` of a quadratic equation, given a root
/// of its discriminant.
pub open spec fn roots<T: Scalar>(q: (T, T, T), root: T) -> (T, T) {
    let ta = T::from_spec(2i8).mul_spec(q.0);
    (q.1.neg_spec().sub_spec(root).div_spec(ta), q.1.neg_spec().add_spec(root).div_spec(ta))
}

/// `xs` are the two intersections of `object` at the roots of the
/// equation, and `root` is what the scalar's `sqrt` returned for the
/// discriminant.
pub open spec fn meets_at_roots<T: Scalar>(
    q: (T, T, T),
    root: T,
    object: usize,
    xs: Seq<Intersection<T>>,
) -> bool {
    &&& call_ensures(T::sqrt, (discriminant(q),), root)
    &&& xs == ordered_pair(roots(q, root).0, roots(q, root).1, object)
}

/// `r` is where a ray meets a surface with the quadratic equation `q`:
/// nowhere if the discriminant is negative, else at the two roots (at a
/// tangent, twice at the same parameter).
pub open spec fn meets_quadric<T: Scalar>(
    q: (T, T, T),
    object: usize,
    r: Option<Seq<Intersection<T>>>,
) -> bool {
    if discriminant(q).is_lt(&spec_zero::<T>()) {
        r is None
    } else {
        r is Some && exists|root: T| #[trigger] meets_at_roots(q, root, object, r->0)
    }
}

/// The discriminant `b² - 4ac` of a quadratic equation.
pub fn discriminant_of<T: Scalar>(a: T, b: T, c: T) -> (r: T)
    requires
        total_field::<T>(),
    ensures
        obeys_field::<T>() ==> r == discriminant((a, b, c)),
{
    b * b - T::from(4i8) * a * c
}

/// The two roots of a quadratic equation, given a root of its discriminant.
pub fn roots_of<T: Scalar>(a: T, b: T, root: T) -> (r: (T, T))
    requires
        total_field::<T>(),
    ensures
        obeys_field::<T>() ==> forall|c: T| r == roots((a, b, c), root),
{
    let ta = T::from(2i8) * a;
    ((b.neg() - root) / ta, (b.neg() + root) / ta)
}

/// Where a ray of object space meets the sphere: nowhere if the
/// discriminant is negative, else twice (at a tangent, twice at the same
/// parameter).
pub fn intersect_sphere<T: Scalar>(ray: &Ray<T>, object: usize) -> (r: Option<Intersections<T>>)
    requires
        total_field::<T>(),
        ray.wf(),
    ensures
        obeys_field::<T>() ==> meets_quadric(
            sphere_quadratic(ray.origin@, ray.direction@),
            object,
            views(r),
        ),
        r matches Some(xs) ==> xs.is@.len() == 2 && xs.is@[0].object == object && xs.is@[1].object
            == object,
{
    proof {
        lemma_dims_4();
    }
    let centre: Vec4D<T> = Vec4D::origin();
    let sphere_to_ray = &ray.origin - &centre;
    let a = scalar_prod_of(&ray.direction, &ray.direction);
    let b = T::from(2i8) * scalar_prod_of(&ray.direction, &sphere_to_ray);
    let c = scalar_prod_of(&sphere_to_ray, &sphere_to_ray) - one();
    let disc = discriminant_of(a, b, c);
    let z: T = zero();
    if disc < z {
        None
    } else {
        let d_sqrt = disc.sqrt();
        let (t1, t2) = roots_of(a, b, d_sqrt);
        let xs = Intersections::pair(t1, t2, object);
        let r = Some(xs);
        proof {
            let q = sphere_quadratic(ray.origin@, ray.direction@);
            if obeys_field::<T>() {
                assert(q == (a, b, c));
                assert(views(r)->0 == xs.is@);
                assert(meets_at_roots(q, d_sqrt, object, views(r)->0));
            }
        }
        r
    }
}

/// The normal of the sphere in object space at a point of it: the point
/// as seen from the centre.
pub fn normal_sphere<T: Scalar>(point: &Vec4D<T>) -> (r: Vec4D<T>)
    requires
        total_field::<T>(),
        point.wf(),
    ensures
        r.wf(),
        T::obeys_sub_spec() && T::obeys_from_spec() ==> r@ == sub_elems(point@, origin_seq::<T>()),
{
    let centre: Vec4D<T> = Vec4D::origin();
    point - &centre
}

impl<T: Scalar> Shape<T> {
    /// A sphere; none where `transform` has no inverse.
    pub fn new_sphere(material: Material<T>, transform: Matrix4x4<T>) -> (r: Option<Self>)
        requires
            transform.wf(),
            material.wf(),
            invert_req(transform@),
        ensures
            r matches Some(s) ==> s.wf() && s.kind == ShapeKind::Sphere && s.material == material
                && s.placement.transform == transform,
            obeys_ring::<T>() && T::obeys_eq_spec() ==> (r is None <==> det_is_zero(transform@)),
    {
        Self::new(ShapeKind::Sphere, material, transform)
    }

    /// The sphere of radius one around the origin, of matte white, placed by
    /// the identity matrix; none exactly where the determinant of that
    /// matrix, worked out with the scalar's operators, counts as zero.
    pub fn default() -> (r: Option<Self>)
        requires
            total_field::<T>(),
        ensures
            obeys_ring::<T>() && T::obeys_eq_spec() ==> (r is None <==> det_is_zero(
                identity_seq::<T>(),
            )),
            r matches Some(s) ==> s.wf() && s.kind == ShapeKind::Sphere && (obeys_field::<T>()
                ==> s.material == Material::<T>::spec_default() && s.placement.transform@
                == identity_seq::<T>()),
    {
        proof {
            lemma_dims_4();
        }
        let transform: Matrix4x4<T> = Matrix::identity();
        proof {
            if T::obeys_from_spec() {
                lemma_identity_seq(transform@);
            }
        }
        Self::new(ShapeKind::Sphere, Material::default(), transform)
    }
}

} // verus!
