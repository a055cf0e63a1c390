//! What shading needs to know of an intersection, worked out once.
use super::intersection::{Intersection, Intersections};
use super::prelude::Shape;
use super::render::is_normal_at;
use crate::primitives::approx_eq::{epsilon, spec_epsilon};
use crate::primitives::ray::Ray;
use crate::primitives::scalar::{obeys_field, total_field, Elementary, Scalar};
use crate::primitives::tmatrix::prelude::{one, spec_one, spec_zero, zero};
use crate::primitives::transformation_matrices::lemma_dims_4;
use crate::primitives::tmatrix::arithmetic::{add_elems, mul_scalar, neg_elems, sub_elems};
use crate::primitives::vector::{reflect_seq, scalar_prod_of, scalar_prod_seq, Vec4D};
use std::ops::Neg;
use vstd::prelude::*;
use vstd::std_specs::cmp::{PartialEqSpec, PartialOrdIs};
use vstd::std_specs::convert::FromSpec;
use vstd::std_specs::ops::{AddSpec, DivSpec, MulSpec, SubSpec};

verus! {

/// Precomputations of values of interest of some intersection
#[derive(Clone, Debug)]
pub struct PreComp<T> {
    /// The point of world space at which the ray meets the object.
    pub point: Vec4D<T>,
    /// The direction towards the origin of the ray.
    pub eye: Vec4D<T>,
    /// The normal of the surface, on the side of the eye.
    pub normal: Vec4D<T>,
    /// The direction of the ray bounced off the surface.
    pub reflection: Vec4D<T>,
    pub t: T,
    pub object: usize,
    /// Whether the ray meets the surface from within the object.
    pub inside: bool,
    /// The point, moved a little along the normal.
    pub over_point: Vec4D<T>,
    /// The point, moved a little against the normal.
    pub under_point: Vec4D<T>,
    /// The refractive index of what the ray leaves.
    pub n1: T,
    /// The refractive index of what the ray enters.
    pub n2: T,
}

/// Where `o` stands first in `c`, if anywhere.
pub open spec fn position(c: Seq<usize>, o: usize) -> Option<int>
    decreases c.len(),
{
    if c.len() == 0 {
        None
    } else if c[0] == o {
        Some(0)
    } else {
        match position(c.drop_first(), o) {
            Some(i) => Some(i + 1),
            None => None,
        }
    }
}

/// `i` is the first place of `o` in `c`.
pub proof fn lemma_position_found(c: Seq<usize>, o: usize, i: int)
    requires
        0 <= i < c.len(),
        c[i] == o,
        forall|j: int| 0 <= j < i ==> c[j] != o,
    ensures
        position(c, o) == Some(i),
    decreases c.len(),
{
    if i > 0 {
        let rest = c.drop_first();
        assert forall|j: int| 0 <= j < i - 1 implies rest[j] != o by {
            assert(rest[j] == c[j + 1]);
        }
        lemma_position_found(rest, o, i - 1);
    }
}

/// `o` stands nowhere in `c`.
pub proof fn lemma_position_none(c: Seq<usize>, o: usize)
    requires
        forall|j: int| 0 <= j < c.len() ==> c[j] != o,
    ensures
        position(c, o) is None,
    decreases c.len(),
{
    if c.len() > 0 {
        let rest = c.drop_first();
        assert forall|j: int| 0 <= j < rest.len() implies rest[j] != o by {
            assert(rest[j] == c[j + 1]);
        }
        lemma_position_none(rest, o);
    }
}

/// The objects that a ray is within once it has passed a surface of `o`:
/// `o` leaves the list if it is in it, and joins it at the end if not.
pub open spec fn toggled(c: Seq<usize>, o: usize) -> Seq<usize> {
    match position(c, o) {
        Some(i) => c.remove(i),
        None => c.push(o),
    }
}

/// The objects that a ray is within after the first `k` of its
/// intersections, in the order in which it entered them.
pub open spec fn containers<T>(xs: Seq<Intersection<T>>, k: int) -> Seq<usize>
    decreases k,
{
    if k <= 0 {
        Seq::empty()
    } else {
        toggled(containers(xs, k - 1), xs[k - 1].object)
    }
}

/// The refractive index of the object entered last, or one: that of empty
/// space.
pub open spec fn index_within<T: Scalar>(c: Seq<usize>, objects: Seq<Shape<T>>) -> T {
    if c.len() > 0 {
        objects[c.last() as int].material.refractive_index
    } else {
        spec_one::<T>()
    }
}

/// Every intersection names an object of the list.
pub open spec fn names_objects<T>(xs: Seq<Intersection<T>>, n: int) -> bool {
    forall|k: int| 0 <= k < xs.len() ==> (#[trigger] xs[k]).object < n
}

/// Every object that a ray is within is named by one of its intersections.
pub proof fn lemma_containers_bound<T>(xs: Seq<Intersection<T>>, k: int, n: int)
    requires
        0 <= k <= xs.len(),
        names_objects(xs, n),
    ensures
        forall|j: int| 0 <= j < containers(xs, k).len() ==> #[trigger] containers(xs, k)[j] < n,
    decreases k,
{
    if k > 0 {
        lemma_containers_bound(xs, k - 1, n);
        let c = containers(xs, k - 1);
        let o = xs[k - 1].object;
        match position(c, o) {
            Some(i) => {
                lemma_position_range(c, o);
            },
            None => {},
        }
    }
}

/// What [`position`] finds is a place of the list.
pub proof fn lemma_position_range(c: Seq<usize>, o: usize)
    ensures
        position(c, o) matches Some(i) ==> 0 <= i < c.len() && c[i] == o,
    decreases c.len(),
{
    if c.len() > 0 && c[0] != o {
        lemma_position_range(c.drop_first(), o);
    }
}

/// Put `o` into the list of objects that the ray is within, or take it out.
pub fn toggle(c: &mut Vec<usize>, o: usize)
    ensures
        final(c)@ == toggled(old(c)@, o),
{
    let mut i: usize = 0;
    while i < c.len()
        invariant
            i <= c@.len(),
            c@ == old(c)@,
            forall|j: int| 0 <= j < i ==> c@[j] != o,
        decreases c@.len() - i,
    {
        if c[i] == o {
            proof {
                lemma_position_found(c@, o, i as int);
            }
            c.remove(i);
            return ;
        }
        i += 1;
    }
    proof {
        lemma_position_none(c@, o);
    }
    c.push(o);
}

/// The refractive indices `(n1, n2)` on the two sides of the intersection
/// with the index `hit`: of what the ray is within before it and after it.
pub fn refractive_indices<T: Scalar>(
    xs: &Intersections<T>,
    hit: usize,
    objects: &Vec<Shape<T>>,
) -> (r: (T, T))
    requires
        hit < xs.is@.len(),
        names_objects(xs.is@, objects@.len() as int),
    ensures
        T::obeys_from_spec() || containers(xs.is@, hit as int).len() > 0 ==> r.0 == index_within(
            containers(xs.is@, hit as int),
            objects@,
        ),
        T::obeys_from_spec() || containers(xs.is@, hit + 1).len() > 0 ==> r.1 == index_within(
            containers(xs.is@, hit + 1),
            objects@,
        ),
{
    let mut within: Vec<usize> = Vec::new();
    let mut k: usize = 0;
    while k < hit
        invariant
            k <= hit < xs.is@.len(),
            within@ == containers(xs.is@, k as int),
        decreases hit - k,
    {
        toggle(&mut within, xs.is[k].object);
        k += 1;
    }
    proof {
        lemma_containers_bound(xs.is@, hit as int, objects@.len() as int);
        lemma_containers_bound(xs.is@, hit + 1, objects@.len() as int);
    }
    let n1 = if within.len() > 0 {
        objects[within[within.len() - 1]].material.refractive_index
    } else {
        one()
    };
    toggle(&mut within, xs.is[hit].object);
    let n2 = if within.len() > 0 {
        objects[within[within.len() - 1]].material.refractive_index
    } else {
        one()
    };
    (n1, n2)
}

impl<T: Scalar> PreComp<T> {
    /// Every vector of the record has four entries.
    pub open spec fn wf(&self) -> bool {
        &&& self.point.wf()
        &&& self.eye.wf()
        &&& self.normal.wf()
        &&& self.reflection.wf()
        &&& self.over_point.wf()
        &&& self.under_point.wf()
    }

    pub fn new(
        point: Vec4D<T>,
        eye: Vec4D<T>,
        normal: Vec4D<T>,
        reflection: Vec4D<T>,
        intersection: Intersection<T>,
        inside: bool,
        over_point: Vec4D<T>,
        under_point: Vec4D<T>,
        n1: T,
        n2: T,
    ) -> (r: Self)
        ensures
            r == (PreComp {
                point,
                eye,
                normal,
                reflection,
                t: intersection.t,
                object: intersection.object,
                inside,
                over_point,
                under_point,
                n1,
                n2,
            }),
    {
        PreComp {
            point,
            eye,
            normal,
            t: intersection.t,
            object: intersection.object,
            inside,
            over_point,
            reflection,
            n1,
            n2,
            under_point,
        }
    }
}

/// `normal` is the normal `found` on the surface, turned to the side of the
/// eye: negated where `found` points away from it, which is where the ray
/// is `inside` the object.
pub open spec fn turned_to_eye<T: Scalar>(
    found: Seq<T>,
    eye: Seq<T>,
    inside: bool,
    normal: Seq<T>,
) -> bool {
    &&& inside == scalar_prod_seq(found, eye).is_lt(&spec_zero::<T>())
    &&& normal == if inside {
        neg_elems(found)
    } else {
        found
    }
}

/// Schlick's approximation of the share of light that a surface mirrors:
/// `r0 + (1 - r0) (1 - cos)⁵` with `r0 = ((n1 - n2) / (n1 + n2))²`.
pub open spec fn schlick_value<T: Scalar>(n1: T, n2: T, cos: T) -> T {
    let o = spec_one::<T>();
    let q = n1.sub_spec(n2).div_spec(n1.add_spec(n2));
    let r0 = q.mul_spec(q);
    let x = o.sub_spec(cos);
    r0.add_spec(
        o.sub_spec(r0).mul_spec(x.mul_spec(x).mul_spec(x).mul_spec(x).mul_spec(x)),
    )
}

/// The square of the sine of the angle of the refracted ray, by Snell's
/// law: `(n1 / n2)² (1 - cos²)`.
pub open spec fn snell_sin2<T: Scalar>(n1: T, n2: T, cos: T) -> T {
    let n = n1.div_spec(n2);
    n.mul_spec(n).mul_spec(spec_one::<T>().sub_spec(cos.mul_spec(cos)))
}

/// `r` is the share of light that a surface between media of the
/// refractive indices `n1` and `n2` mirrors, seen at the angle whose cosine
/// is `cos`.
///
/// On the way out of the denser medium all light is mirrored where the
/// sine of the refracted angle would exceed one; else the cosine of the
/// refracted angle takes the place of `cos`.
pub open spec fn is_reflectance<T: Scalar>(n1: T, n2: T, cos: T, r: T) -> bool {
    if n1.is_gt(&n2) {
        let s = snell_sin2(n1, n2, cos);
        if s.is_gt(&spec_one::<T>()) {
            r == spec_one::<T>()
        } else {
            exists|cos_t: T| #[trigger]
                call_ensures(T::sqrt, (spec_one::<T>().sub_spec(s),), cos_t) && r
                    == schlick_value(n1, n2, cos_t)
        }
    } else {
        r == schlick_value(n1, n2, cos)
    }
}

impl<T: Scalar> PreComp<T> {
    /// The share of light that the surface mirrors, by Schlick's
    /// approximation.
    pub fn schlick(&self) -> (r: T)
        requires
            total_field::<T>(),
            self.wf(),
        ensures
            obeys_field::<T>() ==> is_reflectance(
                self.n1,
                self.n2,
                scalar_prod_seq(self.eye@, self.normal@),
                r,
            ),
    {
        proof {
            lemma_dims_4();
        }
        let o: T = one();
        let mut cos = scalar_prod_of(&self.eye, &self.normal);
        if self.n1 > self.n2 {
            let n = self.n1 / self.n2;
            let sin2_t = n * n * (o - cos * cos);
            if sin2_t > o {
                return o;
            }
            let cos_t = (o - sin2_t).sqrt();
            cos = cos_t;
        }
        let q = (self.n1 - self.n2) / (self.n1 + self.n2);
        let r0 = q * q;
        let x = o - cos;
        let r = r0 + (o - r0) * (x * x * x * x * x);
        proof {
            if obeys_field::<T>() && self.n1.is_gt(&self.n2) {
                let s = snell_sin2(self.n1, self.n2, scalar_prod_seq(self.eye@, self.normal@));
                assert(call_ensures(T::sqrt, (spec_one::<T>().sub_spec(s),), cos) && r
                    == schlick_value(self.n1, self.n2, cos));
            }
        }
        r
    }
}

/// `comp` is what shading needs to know of the intersection with the index
/// `hit` among the intersections `xs` of a ray:
///
/// - the parameter and the object of the intersection;
/// - the point that the ray reaches there, and the direction back to the
///   origin of the ray;
/// - the normal of the object at that point, turned to the side of the eye;
/// - the points the allowed error away from the point, along the normal and
///   against it;
/// - the direction of the ray bounced off the surface;
/// - the refractive indices of what the ray is within before and after the
///   intersection.
pub open spec fn is_precomp<T: Scalar>(
    objects: Seq<Shape<T>>,
    xs: Seq<Intersection<T>>,
    hit: int,
    origin: Seq<T>,
    direction: Seq<T>,
    comp: PreComp<T>,
) -> bool {
    let shape = objects[xs[hit].object as int];
    &&& comp.wf()
    &&& comp.t == xs[hit].t
    &&& comp.object == xs[hit].object
    &&& comp.n1 == index_within(containers(xs, hit), objects)
    &&& comp.n2 == index_within(containers(xs, hit + 1), objects)
    &&& comp.point@ == add_elems(origin, mul_scalar(direction, xs[hit].t))
    &&& comp.eye@ == neg_elems(direction)
    &&& exists|found: Seq<T>| #[trigger]
        turned_to_eye(found, comp.eye@, comp.inside, comp.normal@) && is_normal_at(
            shape.kind,
            shape.placement.inverse@,
            comp.point@,
            found,
        )
    &&& comp.over_point@ == add_elems(comp.point@, mul_scalar(comp.normal@, spec_epsilon::<T>()))
    &&& comp.under_point@ == sub_elems(
        comp.point@,
        mul_scalar(comp.normal@, spec_epsilon::<T>()),
    )
    &&& comp.reflection@ == reflect_seq(direction, comp.normal@)
}

impl<T: Scalar> Intersection<T> {
    /// Work out what shading needs to know of this intersection, which is
    /// the one with the index `hit` among those of the ray.
    ///
    /// The normal is turned to the side of the eye; `over_point` and
    /// `under_point` lie the allowed error away from the point, along the
    /// normal and against it; `n1` and `n2` are the refractive indices of
    /// what the ray is within before and after the intersection.
    pub fn prepare_computations(
        &self,
        ray: &Ray<T>,
        xs: &Intersections<T>,
        hit: usize,
        objects: &Vec<Shape<T>>,
    ) -> (r: PreComp<T>)
        requires
            total_field::<T>(),
            ray.wf(),
            hit < xs.is@.len(),
            xs.is@[hit as int] == *self,
            names_objects(xs.is@, objects@.len() as int),
            forall|k: int| 0 <= k < objects@.len() ==> (#[trigger] objects@[k]).wf(),
        ensures
            r.wf(),
            r.t == self.t,
            r.object == self.object,
            T::obeys_from_spec() || containers(xs.is@, hit as int).len() > 0 ==> r.n1
                == index_within(containers(xs.is@, hit as int), objects@),
            T::obeys_from_spec() || containers(xs.is@, hit + 1).len() > 0 ==> r.n2 == index_within(
                containers(xs.is@, hit + 1),
                objects@,
            ),
            obeys_field::<T>() && T::obeys_eq_spec() ==> is_precomp(
                objects@,
                xs.is@,
                hit as int,
                ray.origin@,
                ray.direction@,
                r,
            ),
    {
        proof {
            lemma_dims_4();
        }
        let point = ray.position(self.t);
        let eye = (&ray.direction).neg();
        let found = objects[self.object].normal_at(&point);
        let z: T = zero();
        let ghost seen = found@;
        let inside = scalar_prod_of(&found, &eye) < z;
        let normal = if inside {
            (&found).neg()
        } else {
            found
        };
        let eps: T = epsilon();
        let nudge = &normal * eps;
        let over_point = &point + &nudge;
        let under_point = &point - &nudge;
        let reflection = ray.direction.reflect(&normal);
        let (n1, n2) = refractive_indices(xs, hit, objects);
        let r = PreComp::new(
            point,
            eye,
            normal,
            reflection,
            *self,
            inside,
            over_point,
            under_point,
            n1,
            n2,
        );
        proof {
            if obeys_field::<T>() && T::obeys_eq_spec() {
                let shape = objects@[self.object as int];
                assert(turned_to_eye(seen, r.eye@, r.inside, r.normal@) && is_normal_at(
                    shape.kind,
                    shape.placement.inverse@,
                    r.point@,
                    seen,
                ));
            }
        }
        r
    }
}

} // verus!
