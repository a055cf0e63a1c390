//! The cylinder of radius one around the y axis.
use super::intersection::{ordered_pair, views, Intersection, Intersections};
use super::prelude::{Shape, ShapeKind};
use super::sphere::{
    discriminant, discriminant_of, meets_at_roots, meets_quadric, roots, roots_of,
};
use crate::primitives::approx_eq::ApproxEq;
use crate::primitives::ray::Ray;
use crate::primitives::scalar::{obeys_field, obeys_order, total_field, Elementary, Scalar};
use crate::primitives::tmatrix::amath::{det_is_zero, invert_req, obeys_ring};
use crate::primitives::tmatrix::arithmetic::{identity_seq, lemma_identity_seq};
use crate::primitives::tmatrix::prelude::{one, spec_one, spec_zero, zero};
use crate::primitives::tmatrix::Matrix;
use crate::primitives::transformation_matrices::{lemma_dims_4, Matrix4x4};
use crate::primitives::vector::{vector, Vec4D};
use crate::shading::material::Material;
use std::ops::Neg;
use vstd::prelude::*;
use vstd::std_specs::cmp::{PartialEqSpec, PartialOrdIs};
use vstd::std_specs::convert::FromSpec;
use vstd::std_specs::ops::{AddSpec, MulSpec, NegSpec, SubSpec};

verus! {

/// The coefficients `(a, b, c)` of the quadratic equation in the ray's
/// parameter that says "the point lies on the cylinder": as for the sphere,
/// with the x and z entries alone.
pub open spec fn cylinder_quadratic<T: Scalar>(origin: Seq<T>, direction: Seq<T>) -> (T, T, T) {
    (
        direction[0].mul_spec(direction[0]).add_spec(direction[2].mul_spec(direction[2])),
        T::from_spec(2i8).mul_spec(
            origin[0].mul_spec(direction[0]).add_spec(origin[2].mul_spec(direction[2])),
        ),
        origin[0].mul_spec(origin[0]).add_spec(origin[2].mul_spec(origin[2])).sub_spec(
            spec_one::<T>(),
        ),
    )
}

/// The coefficients of the cylinder's quadratic equation.
pub fn cylinder_coefficients<T: Scalar>(ray: &Ray<T>) -> (q: (T, T, T))
    requires
        total_field::<T>(),
        ray.wf(),
    ensures
        obeys_field::<T>() ==> q == cylinder_quadratic(ray.origin@, ray.direction@),
{
    proof {
        lemma_dims_4();
    }
    let dx = ray.direction.x();
    let dz = ray.direction.z();
    let ox = ray.origin.x();
    let oz = ray.origin.z();
    (dx * dx + dz * dz, T::from(2i8) * (ox * dx + oz * dz), ox * ox + oz * oz - one())
}

/// The ray runs along the axis of the cylinder: `a` is, up to the allowed
/// error, zero; or it passes the cylinder by: the discriminant is negative.
pub open spec fn misses_cylinder<T: Scalar>(origin: Seq<T>, direction: Seq<T>) -> bool {
    let q = cylinder_quadratic(origin, direction);
    q.0.approx_eq_spec(spec_zero::<T>()) || discriminant(q).is_lt(&spec_zero::<T>())
}

/// `r` is where a ray of object space meets the endless cylinder: nowhere
/// if it runs along the axis or passes by, else at the two roots of the
/// cylinder's equation.
pub open spec fn meets_cylinder<T: Scalar>(
    origin: Seq<T>,
    direction: Seq<T>,
    object: usize,
    r: Option<Seq<Intersection<T>>>,
) -> bool {
    let q = cylinder_quadratic(origin, direction);
    if q.0.approx_eq_spec(spec_zero::<T>()) {
        r is None
    } else {
        meets_quadric(q, object, r)
    }
}

/// Of two intersections of one object, those that are to be kept.
pub open spec fn kept<T: PartialOrd>(
    t0: T,
    t1: T,
    keep0: bool,
    keep1: bool,
    object: usize,
) -> Seq<Intersection<T>> {
    if keep0 && keep1 {
        ordered_pair(t0, t1, object)
    } else if keep0 {
        seq![Intersection { t: t0, object }]
    } else if keep1 {
        seq![Intersection { t: t1, object }]
    } else {
        Seq::empty()
    }
}

/// `r` is where a ray of object space meets the cylinder between y = -1
/// and y = 1: nowhere (no list at all) if it runs along the axis or passes
/// by, else those of the two roots of the cylinder's equation at which the
/// ray is between the caps.
pub open spec fn meets_capped<T: Scalar>(
    origin: Seq<T>,
    direction: Seq<T>,
    object: usize,
    r: Option<Seq<Intersection<T>>>,
) -> bool {
    let q = cylinder_quadratic(origin, direction);
    if misses_cylinder(origin, direction) {
        r is None
    } else {
        r is Some && exists|root: T| #[trigger]
            call_ensures(T::sqrt, (discriminant(q),), root) && r->0 == kept(
                roots(q, root).0,
                roots(q, root).1,
                within_caps(origin, direction, roots(q, root).0),
                within_caps(origin, direction, roots(q, root).1),
                object,
            )
    }
}

/// Where a ray of object space meets the endless cylinder: nowhere if it
/// runs along the axis or passes by, else twice.
pub fn intersect_cylinder<T: Scalar>(ray: &Ray<T>, object: usize) -> (r: Option<Intersections<T>>)
    requires
        total_field::<T>(),
        ray.wf(),
    ensures
        obeys_field::<T>() ==> meets_cylinder(ray.origin@, ray.direction@, object, views(r)),
        r matches Some(xs) ==> xs.is@.len() == 2 && xs.is@[0].object == object && xs.is@[1].object
            == object,
{
    let (a, b, c) = cylinder_coefficients(ray);
    let z: T = zero();
    if a.approx_eq(z) {
        None
    } else {
        let disc = discriminant_of(a, b, c);
        if disc < z {
            None
        } else {
            let root = disc.sqrt();
            let (t0, t1) = roots_of(a, b, root);
            let xs = Intersections::pair(t0, t1, object);
            let r = Some(xs);
            proof {
                let q = cylinder_quadratic(ray.origin@, ray.direction@);
                if obeys_field::<T>() {
                    assert(views(r)->0 == xs.is@);
                    assert(meets_at_roots(q, root, object, views(r)->0));
                }
            }
            r
        }
    }
}

/// The height `origin.y + t * direction.y` that a ray reaches at `t` lies
/// between -1 and 1, both excluded.
pub open spec fn within_caps<T: Scalar>(origin: Seq<T>, direction: Seq<T>, t: T) -> bool {
    let y = origin[1].add_spec(t.mul_spec(direction[1]));
    spec_one::<T>().neg_spec().is_lt(&y) && y.is_lt(&spec_one::<T>())
}

/// Whether the height that a ray reaches at `t` lies between the caps.
pub fn reaches_within_caps<T: Scalar>(ray: &Ray<T>, t: T) -> (r: bool)
    requires
        total_field::<T>(),
        ray.wf(),
    ensures
        obeys_field::<T>() ==> r == within_caps(ray.origin@, ray.direction@, t),
{
    proof {
        lemma_dims_4();
    }
    let o: T = one();
    let y = ray.origin.y() + t * ray.direction.y();
    o.neg() < y && y < o
}

/// Where a ray of object space meets the cylinder between y = -1 and
/// y = 1: of the intersections with the endless cylinder, those between the
/// caps.
pub fn intersect_trunc<T: Scalar>(ray: &Ray<T>, object: usize) -> (r: Option<Intersections<T>>)
    requires
        total_field::<T>(),
        ray.wf(),
    ensures
        obeys_field::<T>() ==> meets_capped(ray.origin@, ray.direction@, object, views(r)),
        r matches Some(xs) ==> xs.is@.len() <= 2 && (forall|k: int|
            0 <= k < xs.is@.len() ==> (#[trigger] xs.is@[k]).object == object),
{
    let (a, b, c) = cylinder_coefficients(ray);
    let z: T = zero();
    if a.approx_eq(z) {
        None
    } else {
        let disc = discriminant_of(a, b, c);
        if disc < z {
            None
        } else {
            let root = disc.sqrt();
            let (t0, t1) = roots_of(a, b, root);
            let keep0 = reaches_within_caps(ray, t0);
            let keep1 = reaches_within_caps(ray, t1);
            let xs = if keep0 && keep1 {
                Intersections::pair(t0, t1, object)
            } else if keep0 {
                Intersections::single(t0, object)
            } else if keep1 {
                Intersections::single(t1, object)
            } else {
                Intersections::empty()
            };
            let r = Some(xs);
            proof {
                let q = cylinder_quadratic(ray.origin@, ray.direction@);
                if obeys_field::<T>() {
                    assert(views(r)->0 == xs.is@);
                    assert(call_ensures(T::sqrt, (discriminant(q),), root) && views(r)->0 == kept(
                        roots(q, root).0,
                        roots(q, root).1,
                        within_caps(ray.origin@, ray.direction@, roots(q, root).0),
                        within_caps(ray.origin@, ray.direction@, roots(q, root).1),
                        object,
                    ));
                }
            }
            r
        }
    }
}

/// The normal of the cylinder in object space at a point of its surface:
/// the point with its y entry and its fourth entry put to zero.
pub open spec fn cylinder_normal<T: Scalar>(point: Seq<T>) -> Seq<T> {
    seq![point[0], spec_zero::<T>(), point[2], spec_zero::<T>()]
}

/// The normal of the cylinder in object space at a point of its surface:
/// the point with its y entry put to zero.
pub fn normal_cylinder<T: Scalar>(point: &Vec4D<T>) -> (r: Vec4D<T>)
    requires
        point.wf(),
    ensures
        r.wf(),
        r@.len() == 4,
        T::obeys_from_spec() ==> r@ =~= cylinder_normal(point@),
{
    proof {
        lemma_dims_4();
    }
    vector(point.x(), zero(), point.z())
}

impl<T: Scalar> Shape<T> {
    /// An endless cylinder; none where `transform` has no inverse.
    pub fn new_cylinder(material: Material<T>, transform: Matrix4x4<T>) -> (r: Option<Self>)
        requires
            transform.wf(),
            material.wf(),
            invert_req(transform@),
        ensures
            r matches Some(s) ==> s.wf() && s.kind == ShapeKind::Cylinder && s.material
                == material && s.placement.transform == transform,
            obeys_ring::<T>() && T::obeys_eq_spec() ==> (r is None <==> det_is_zero(transform@)),
    {
        Self::new(ShapeKind::Cylinder, material, transform)
    }

    /// The endless cylinder of radius one, of matte white, placed by the
    /// identity matrix; none exactly where the determinant of that matrix,
    /// worked out with the scalar's operators, counts as zero.
    pub fn default_cylinder() -> (r: Option<Self>)
        requires
            total_field::<T>(),
        ensures
            obeys_ring::<T>() && T::obeys_eq_spec() ==> (r is None <==> det_is_zero(
                identity_seq::<T>(),
            )),
            r matches Some(s) ==> s.wf() && s.kind == ShapeKind::Cylinder && (obeys_field::<T>()
                ==> s.material == Material::<T>::spec_default() && s.placement.transform@
                == identity_seq::<T>()),
    {
        proof {
            lemma_dims_4();
        }
        let transform: Matrix4x4<T> = Matrix::identity();
        proof {
            if T::obeys_from_spec() {
                lemma_identity_seq(transform@);
            }
        }
        Self::new_cylinder(Material::default(), transform)
    }

    /// A cylinder between y = -1 and y = 1; none where `transform` has no
    /// inverse.
    pub fn new_trunc_cylinder(material: Material<T>, transform: Matrix4x4<T>) -> (r: Option<Self>)
        requires
            transform.wf(),
            material.wf(),
            invert_req(transform@),
        ensures
            r matches Some(s) ==> s.wf() && s.kind == ShapeKind::TruncatedCylinder && s.material
                == material && s.placement.transform == transform,
            obeys_ring::<T>() && T::obeys_eq_spec() ==> (r is None <==> det_is_zero(transform@)),
    {
        Self::new(ShapeKind::TruncatedCylinder, material, transform)
    }

    /// The cylinder between y = -1 and y = 1, of matte white, placed by the
    /// identity matrix; none exactly where the determinant of that matrix,
    /// worked out with the scalar's operators, counts as zero.
    pub fn default_trunc_cylinder() -> (r: Option<Self>)
        requires
            total_field::<T>(),
        ensures
            obeys_ring::<T>() && T::obeys_eq_spec() ==> (r is None <==> det_is_zero(
                identity_seq::<T>(),
            )),
            r matches Some(s) ==> s.wf() && s.kind == ShapeKind::TruncatedCylinder && (obeys_field::<T>()
                ==> s.material == Material::<T>::spec_default() && s.placement.transform@
                == identity_seq::<T>()),
    {
        proof {
            lemma_dims_4();
        }
        let transform: Matrix4x4<T> = Matrix::identity();
        proof {
            if T::obeys_from_spec() {
                lemma_identity_seq(transform@);
            }
        }
        Self::new_trunc_cylinder(Material::default(), transform)
    }
}

} // verus!
