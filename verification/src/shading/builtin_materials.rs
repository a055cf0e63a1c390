//! Materials ready for use.
use super::material::{ratio, spec_ratio, spec_two_hundred, Material};
use crate::primitives::pixel::Pixel;
use crate::primitives::scalar::{obeys_field, total_field, Scalar};
use crate::primitives::tmatrix::prelude::{one, spec_one, zero};
use vstd::prelude::*;

verus! {

impl<T: Scalar> Material<T> {
    /// Glass: matte white made fully transparent, with the refractive index
    /// one and a half.
    pub fn glass() -> (m: Self)
        requires
            total_field::<T>(),
        ensures
            m.pattern is None,
            obeys_field::<T>() ==> m == (Material {
                transparency: spec_one::<T>(),
                refractive_index: spec_ratio::<T>(3, 2),
                ..Self::spec_default()
            }),
    {
        Material::new(
            Pixel::white(),
            ratio(1, 10),
            ratio(9, 10),
            ratio(9, 10),
            T::from(100i8) + T::from(100i8),
            zero(),
            one(),
            ratio(3, 2),
        )
    }
}

} // verus!
