//! Colourings with a placement of their own.
use super::builtin_patterns::{color_of, is_pattern_color, PatternKind};
use crate::primitives::approx_eq::ApproxEq;
use crate::primitives::pixel::Color;
use crate::primitives::scalar::{obeys_field, total_field, Scalar};
use crate::primitives::tmatrix::amath::{det_is_zero, invert_req, is_inverse, obeys_ring};
use crate::primitives::tmatrix::arithmetic::{is_product, mat_mul};
use crate::primitives::transformation_matrices::{lemma_dims_4, Matrix4x4};
use crate::primitives::vector::Vec4D;
use crate::shapes::prelude::{Placement, Shape};
use vstd::prelude::*;
use vstd::std_specs::cmp::PartialEqSpec;
use vstd::std_specs::ops::DivSpec;

verus! {

/// A colouring of space, placed by a transformation of its own.
#[derive(Clone, Debug)]
pub struct Pattern<T> {
    pub placement: Placement<T>,
    pub kind: PatternKind,
}

/// `c` is the colour at a point of world space of a pattern on an object,
/// given the inverses of their transformations: the colour of the pattern at
/// the point, taken to object space and from there to pattern space.
pub open spec fn is_pattern_at<T: Scalar>(
    kind: PatternKind,
    pattern_inverse: Seq<T>,
    object_inverse: Seq<T>,
    point: Seq<T>,
    c: Color<T>,
) -> bool {
    exists|object_point: Seq<T>, pattern_point: Seq<T>|
        {
            &&& is_product(object_point, object_inverse, point, 4, 4, 1)
            &&& #[trigger] is_product(pattern_point, pattern_inverse, object_point, 4, 4, 1)
            &&& is_pattern_color(kind, pattern_point, c)
        }
}

impl<T: Scalar> Pattern<T> {
    /// The placement is well formed.
    pub open spec fn wf(&self) -> bool {
        self.placement.wf()
    }

    /// A pattern of the given kind, placed by `transform`; none where that
    /// matrix has no inverse.
    pub fn new(kind: PatternKind, transform: Matrix4x4<T>) -> (r: Option<Self>)
        requires
            transform.wf(),
            invert_req(transform@),
        ensures
            r matches Some(p) ==> p.wf() && p.kind == kind && p.placement.transform@
                == transform@,
            obeys_ring::<T>() && T::obeys_eq_spec() ==> (r is None <==> det_is_zero(transform@)),
    {
        match Placement::new(transform) {
            Some(placement) => Some(Pattern { placement, kind }),
            None => None,
        }
    }

    /// The colour of the pattern at a point of world space, on the given
    /// object: the point is taken to object space, then to pattern space.
    pub fn at(&self, object: &Shape<T>, point: &Vec4D<T>) -> (c: Color<T>)
        requires
            total_field::<T>(),
            self.wf(),
            object.wf(),
            point.wf(),
        ensures
            obeys_field::<T>() && T::obeys_eq_spec() ==> is_pattern_at(
                self.kind,
                self.placement.inverse@,
                object.placement.inverse@,
                point@,
                c,
            ),
    {
        proof {
            lemma_dims_4();
        }
        let object_point = mat_mul(object.inverse_transform(), point);
        let pattern_point = mat_mul(&self.placement.inverse, &object_point);
        let c = color_of(self.kind, &pattern_point);
        proof {
            if obeys_field::<T>() && T::obeys_eq_spec() {
                assert(is_product(object_point@, object.placement.inverse@, point@, 4, 4, 1)
                    && is_product(pattern_point@, self.placement.inverse@, object_point@, 4, 4, 1)
                    && is_pattern_color(self.kind, pattern_point@, c));
            }
        }
        c
    }

    pub fn transform(&self) -> (r: &Matrix4x4<T>)
        ensures
            r == &self.placement.transform,
    {
        &self.placement.transform
    }

    pub fn inverse_transform(&self) -> (r: &Matrix4x4<T>)
        ensures
            r == &self.placement.inverse,
    {
        &self.placement.inverse
    }

    /// Place the pattern anew. Where the matrix has no inverse, the pattern
    /// stays as it is and `false` is returned.
    pub fn set_transform(&mut self, transformation: Matrix4x4<T>) -> (done: bool)
        requires
            old(self).wf(),
            transformation.wf(),
            invert_req(transformation@),
        ensures
            final(self).wf(),
            final(self).kind == old(self).kind,
            done ==> final(self).placement.transform@ == transformation@,
            !done ==> final(self).placement == old(self).placement,
            obeys_ring::<T>() && T::obeys_eq_spec() ==> (done <==> !det_is_zero(transformation@)),
    {
        match Placement::new(transformation) {
            Some(placement) => {
                self.placement = placement;
                true
            },
            None => false,
        }
    }
}

impl<T: Scalar> Pattern<T> {
    /// Place the pattern by what `f` makes of its transformation. Where
    /// that has no inverse, the pattern stays as it is and `false` is
    /// returned.
    pub fn modify_transform<F: Fn(Matrix4x4<T>) -> Matrix4x4<T>>(&mut self, f: F) -> (done: bool)
        requires
            old(self).wf(),
            forall|t: Matrix4x4<T>|
                t@ == old(self).placement.transform@ && t.wf() ==> call_requires(f, (t,)),
            forall|t: Matrix4x4<T>, u: Matrix4x4<T>|
                t@ == old(self).placement.transform@ && call_ensures(f, (t,), u) ==> u.wf()
                    && invert_req(u@),
        ensures
            final(self).wf(),
            final(self).kind == old(self).kind,
            !done ==> final(self).placement == old(self).placement,
            exists|t: Matrix4x4<T>, u: Matrix4x4<T>|
                {
                    &&& t@ == old(self).placement.transform@
                    &&& #[trigger] call_ensures(f, (t,), u)
                    &&& done ==> final(self).placement.transform == u
                    &&& obeys_ring::<T>() && T::obeys_eq_spec() ==> (done <==> !det_is_zero(u@))
                },
    {
        match self.placement.modified(f) {
            Some(placement) => {
                self.placement = placement;
                true
            },
            None => false,
        }
    }
}

impl<'a, T: Scalar> ApproxEq for &'a Pattern<T> {
    open spec fn obeys_approx_eq() -> bool {
        <T as ApproxEq>::obeys_approx_eq()
    }

    open spec fn approx_eq_req(self, other: &'a Pattern<T>) -> bool {
        (&self.placement.transform).approx_eq_req(&other.placement.transform)
    }

    /// The transformations are the same up to the allowed error.
    open spec fn approx_eq_spec(self, other: &'a Pattern<T>) -> bool {
        (&self.placement.transform).approx_eq_spec(&other.placement.transform)
    }

    fn approx_eq(self, other: &'a Pattern<T>) -> (r: bool) {
        (&self.placement.transform).approx_eq(&other.placement.transform)
    }
}

} // verus!
