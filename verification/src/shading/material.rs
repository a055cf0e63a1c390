//! What a surface does with light.
use super::pattern::Pattern;
use crate::primitives::approx_eq::ApproxEq;
use crate::primitives::pixel::{Color, Pixel};
use crate::primitives::scalar::{obeys_field, total_field, Scalar};
use crate::primitives::tmatrix::prelude::{one, spec_one, spec_zero, zero};
use vstd::prelude::*;
use vstd::std_specs::convert::FromSpec;
use vstd::std_specs::ops::{AddSpec, DivSpec};

verus! {

/// The reflectance of a surface: its colour, the shares of ambient, diffuse
/// and specular light, how sharp its highlights are, how much it mirrors,
/// how much light passes through it and how much it bends that light.
#[derive(Clone, Debug)]
pub struct Material<T> {
    pub color: Color<T>,
    pub pattern: Option<Pattern<T>>,
    pub ambient: T,
    pub diffuse: T,
    pub specular: T,
    pub shininess: T,
    pub reflectiveness: T,
    pub transparency: T,
    pub refractive_index: T,
}

/// The quotient of two small integers as a scalar.
pub open spec fn spec_ratio<T: Scalar>(p: i8, q: i8) -> T {
    T::from_spec(p).div_spec(T::from_spec(q))
}

/// The quotient of two small integers as a scalar.
#[verifier::when_used_as_spec(spec_ratio)]
pub fn ratio<T: Scalar>(p: i8, q: i8) -> (r: T)
    requires
        total_field::<T>() || (T::obeys_from_spec() && T::from_spec(p).div_req(T::from_spec(q))),
    ensures
        T::obeys_from_spec() && T::obeys_div_spec() ==> r == spec_ratio::<T>(p, q),
{
    T::from(p) / T::from(q)
}

/// Two hundred as a scalar.
pub open spec fn spec_two_hundred<T: Scalar>() -> T {
    T::from_spec(100i8).add_spec(T::from_spec(100i8))
}

impl<T: Scalar> Material<T> {
    /// Whether the pattern, if there is one, is well formed.
    pub open spec fn wf(&self) -> bool {
        self.pattern matches Some(p) ==> p.wf()
    }

    pub fn new_with_pattern(
        color: Color<T>,
        pattern: Option<Pattern<T>>,
        ambient: T,
        diffuse: T,
        specular: T,
        shininess: T,
        reflectiveness: T,
        transparency: T,
        refractive_index: T,
    ) -> (m: Self)
        ensures
            m == (Material {
                color,
                pattern,
                ambient,
                diffuse,
                specular,
                shininess,
                reflectiveness,
                transparency,
                refractive_index,
            }),
    {
        Material {
            color,
            pattern,
            ambient,
            diffuse,
            specular,
            shininess,
            reflectiveness,
            transparency,
            refractive_index,
        }
    }

    pub fn new(
        color: Color<T>,
        ambient: T,
        diffuse: T,
        specular: T,
        shininess: T,
        reflectiveness: T,
        transparency: T,
        refractive_index: T,
    ) -> (m: Self)
        ensures
            m == (Material {
                color,
                pattern: None,
                ambient,
                diffuse,
                specular,
                shininess,
                reflectiveness,
                transparency,
                refractive_index,
            }),
    {
        Self::new_with_pattern(
            color,
            None,
            ambient,
            diffuse,
            specular,
            shininess,
            reflectiveness,
            transparency,
            refractive_index,
        )
    }

    /// Matte white: a tenth ambient, nine tenths diffuse and specular,
    /// shininess 200, neither mirroring nor transparent.
    pub open spec fn spec_default() -> Self {
        Material {
            color: Pixel::spec_white(),
            pattern: None,
            ambient: spec_ratio::<T>(1, 10),
            diffuse: spec_ratio::<T>(9, 10),
            specular: spec_ratio::<T>(9, 10),
            shininess: spec_two_hundred::<T>(),
            reflectiveness: spec_zero::<T>(),
            transparency: spec_zero::<T>(),
            refractive_index: spec_one::<T>(),
        }
    }

    /// Matte white: a tenth ambient, nine tenths diffuse and specular,
    /// shininess 200, neither mirroring nor transparent.
    pub fn default() -> (m: Self)
        requires
            total_field::<T>(),
        ensures
            m.pattern is None,
            obeys_field::<T>() ==> m == Self::spec_default(),
    {
        Material::new(
            Pixel::white(),
            ratio(1, 10),
            ratio(9, 10),
            ratio(9, 10),
            T::from(100i8) + T::from(100i8),
            zero(),
            zero(),
            one(),
        )
    }
}

impl<'a, T: Scalar> ApproxEq for &'a Material<T> {
    open spec fn obeys_approx_eq() -> bool {
        <T as ApproxEq>::obeys_approx_eq()
    }

    open spec fn approx_eq_req(self, other: &'a Material<T>) -> bool {
        &&& self.color.approx_eq_req(other.color)
        &&& self.ambient.approx_eq_req(other.ambient)
        &&& self.diffuse.approx_eq_req(other.diffuse)
        &&& self.specular.approx_eq_req(other.specular)
        &&& self.shininess.approx_eq_req(other.shininess)
    }

    /// The colours and the shares of ambient, diffuse and specular light
    /// and the shininess are the same up to the allowed error.
    open spec fn approx_eq_spec(self, other: &'a Material<T>) -> bool {
        &&& self.color.approx_eq_spec(other.color)
        &&& self.ambient.approx_eq_spec(other.ambient)
        &&& self.diffuse.approx_eq_spec(other.diffuse)
        &&& self.specular.approx_eq_spec(other.specular)
        &&& self.shininess.approx_eq_spec(other.shininess)
    }

    fn approx_eq(self, other: &'a Material<T>) -> (r: bool) {
        self.color.approx_eq(other.color) && self.ambient.approx_eq(other.ambient)
            && self.diffuse.approx_eq(other.diffuse) && self.specular.approx_eq(other.specular)
            && self.shininess.approx_eq(other.shininess)
    }
}

} // verus!
