//! Light sources and the light that a surface sends to the eye.
use super::material::Material;
use super::pattern::is_pattern_at;
use crate::primitives::pixel::{Color, Pixel};
use crate::primitives::scalar::{obeys_field, total_field, Elementary, Scalar};
use crate::primitives::tmatrix::prelude::{spec_one, spec_zero, zero};
use crate::primitives::transformation_matrices::lemma_dims_4;
use crate::primitives::vector::{scalar_prod_of, Vec4D};
use crate::shapes::prelude::Shape;
use std::ops::Neg;
use vstd::prelude::*;
use vstd::std_specs::cmp::{PartialEqSpec, PartialOrdIs};
use vstd::std_specs::convert::FromSpec;
use vstd::std_specs::ops::MulSpec;

verus! {

/// A light without extent: it shines from one point, the same in all
/// directions and at all distances.
#[derive(Debug, Clone)]
pub struct PointLight<T> {
    pub intensity: Color<T>,
    pub position: Vec4D<T>,
}

/// The light that reaches a surface of the given colour anyway: the colour,
/// blended with the light's, times the material's ambient share.
pub open spec fn ambient_light<T: Scalar>(color: Color<T>, intensity: Color<T>, ambient: T) -> Color<
    T,
> {
    Pixel::scaled(Pixel::times(color, intensity), ambient)
}

/// The light that a surface scatters: the colour, blended with the light's,
/// times the material's diffuse share, times the cosine of the angle between
/// the normal and the direction to the light.
pub open spec fn diffuse_light<T: Scalar>(
    color: Color<T>,
    intensity: Color<T>,
    diffuse: T,
    light_dot_normal: T,
) -> Color<T> {
    Pixel::scaled(Pixel::scaled(Pixel::times(color, intensity), diffuse), light_dot_normal)
}

/// The highlight: the light's colour times the material's specular share,
/// times `factor`, the cosine of the angle between the mirrored light and
/// the eye raised to the power of the shininess.
pub open spec fn specular_light<T: Scalar>(intensity: Color<T>, specular: T, factor: T) -> Color<
    T,
> {
    Pixel::scaled(Pixel::scaled(intensity, specular), factor)
}

/// `(diffuse, specular)` are the scattered light and the highlight of a
/// surface for which `light_dot_normal` and `reflect_dot_eye` are the
/// cosines of the angles between the normal and the light, and between the
/// mirrored light and the eye.
///
/// Both are black where the light is behind the surface; the highlight is
/// black where the mirrored light points away from the eye.
pub open spec fn is_direct_light<T: Scalar>(
    color: Color<T>,
    intensity: Color<T>,
    material: Material<T>,
    light_dot_normal: T,
    reflect_dot_eye: T,
    diffuse: Color<T>,
    specular: Color<T>,
) -> bool {
    if light_dot_normal.is_lt(&spec_zero::<T>()) {
        diffuse == Pixel::<T>::spec_black() && specular == Pixel::<T>::spec_black()
    } else {
        &&& diffuse == diffuse_light(color, intensity, material.diffuse, light_dot_normal)
        &&& if reflect_dot_eye.is_le(&spec_zero::<T>()) {
            specular == Pixel::<T>::spec_black()
        } else {
            exists|factor: T| #[trigger]
                call_ensures(T::powf, (reflect_dot_eye, material.shininess), factor) && specular
                    == specular_light(intensity, material.specular, factor)
        }
    }
}

/// `c` is the light that the surface sends to the eye: the ambient light
/// and, unless the point is in shadow, the scattered light and the
/// highlight on top.
pub open spec fn is_lighting<T: Scalar>(
    color: Color<T>,
    intensity: Color<T>,
    material: Material<T>,
    in_shadow: bool,
    c: Color<T>,
) -> bool {
    let ambient = ambient_light(color, intensity, material.ambient);
    if in_shadow {
        c == ambient
    } else {
        exists|light_dot_normal: T, reflect_dot_eye: T, diffuse: Color<T>, specular: Color<T>|
            #[trigger] is_direct_light(
                color,
                intensity,
                material,
                light_dot_normal,
                reflect_dot_eye,
                diffuse,
                specular,
            ) && c == Pixel::plus(Pixel::plus(ambient, diffuse), specular)
    }
}

/// `color` is the colour of a surface of the given material at a point of
/// world space, on an object placed by a transformation with the inverse
/// `object_inverse`: that of the material's pattern at the point, if it has
/// one, else the material's own.
pub open spec fn is_surface_color<T: Scalar>(
    material: Material<T>,
    object_inverse: Seq<T>,
    point: Seq<T>,
    color: Color<T>,
) -> bool {
    match material.pattern {
        Some(pattern) => is_pattern_at(
            pattern.kind,
            pattern.placement.inverse@,
            object_inverse,
            point,
            color,
        ),
        None => color == material.color,
    }
}

/// In shadow a surface sends the ambient light to the eye and nothing else,
/// whatever the light, the eye and the normal are.
pub proof fn lemma_shadow_leaves_ambient<T: Scalar>(
    color: Color<T>,
    intensity: Color<T>,
    material: Material<T>,
    c: Color<T>,
)
    requires
        is_lighting(color, intensity, material, true, c),
    ensures
        c == ambient_light(color, intensity, material.ambient),
{
}

/// With the light behind the surface, nothing is scattered and there is no
/// highlight.
pub proof fn lemma_light_behind_is_dark<T: Scalar>(
    color: Color<T>,
    intensity: Color<T>,
    material: Material<T>,
    light_dot_normal: T,
    reflect_dot_eye: T,
    diffuse: Color<T>,
    specular: Color<T>,
)
    requires
        light_dot_normal.is_lt(&spec_zero::<T>()),
        is_direct_light(
            color,
            intensity,
            material,
            light_dot_normal,
            reflect_dot_eye,
            diffuse,
            specular,
        ),
    ensures
        diffuse == Pixel::<T>::spec_black(),
        specular == Pixel::<T>::spec_black(),
{
}

impl<T: Scalar> PointLight<T> {
    /// The position has four entries.
    pub open spec fn wf(&self) -> bool {
        self.position.wf()
    }

    pub fn new(position: Vec4D<T>, intensity: Color<T>) -> (r: Self)
        ensures
            r.position == position,
            r.intensity == intensity,
    {
        PointLight { intensity, position }
    }

    /// The light at the origin that gives no light.
    pub fn default() -> (r: Self)
        ensures
            r.wf(),
            T::obeys_from_spec() ==> r.intensity == Pixel::<T>::spec_black() && r.position@
                == seq![spec_zero::<T>(), spec_zero::<T>(), spec_zero::<T>(), spec_one::<T>()],
    {
        PointLight::new(Vec4D::origin(), Color::black())
    }

    /// The scattered light and the highlight of a surface that is not in
    /// shadow.
    pub fn direct_light(
        &self,
        color: Color<T>,
        material: &Material<T>,
        point: &Vec4D<T>,
        eye: &Vec4D<T>,
        normal: &Vec4D<T>,
    ) -> (r: (Color<T>, Color<T>))
        requires
            total_field::<T>(),
            self.wf(),
            point.wf(),
            eye.wf(),
            normal.wf(),
        ensures
            obeys_field::<T>() ==> exists|light_dot_normal: T, reflect_dot_eye: T| #[trigger]
                is_direct_light(
                    color,
                    self.intensity,
                    *material,
                    light_dot_normal,
                    reflect_dot_eye,
                    r.0,
                    r.1,
                ),
    {
        proof {
            lemma_dims_4();
        }
        let z: T = zero();
        let effective_color = color * self.intensity;
        let light_v = (&self.position - point).unit();
        let light_dot_normal = scalar_prod_of(&light_v, normal);
        if light_dot_normal < z {
            let r = (Color::black(), Color::black());
            proof {
                if obeys_field::<T>() {
                    assert(is_direct_light(
                        color,
                        self.intensity,
                        *material,
                        light_dot_normal,
                        z,
                        r.0,
                        r.1,
                    ));
                    assert(exists|a: T, b: T| #[trigger]
                        is_direct_light(color, self.intensity, *material, a, b, r.0, r.1));
                }
            }
            r
        } else {
            let diffuse = effective_color * material.diffuse * light_dot_normal;
            let reflect_v = (&light_v).neg().reflect(normal);
            let reflect_dot_eye = scalar_prod_of(&reflect_v, eye);
            let specular = if reflect_dot_eye <= z {
                Color::black()
            } else {
                let factor = reflect_dot_eye.powf(material.shininess);
                let s = self.intensity * material.specular * factor;
                proof {
                    if obeys_field::<T>() {
                        assert(call_ensures(
                            T::powf,
                            (reflect_dot_eye, material.shininess),
                            factor,
                        ) && s == specular_light(self.intensity, material.specular, factor));
                    }
                }
                s
            };
            let r = (diffuse, specular);
            proof {
                if obeys_field::<T>() {
                    assert(is_direct_light(
                        color,
                        self.intensity,
                        *material,
                        light_dot_normal,
                        reflect_dot_eye,
                        r.0,
                        r.1,
                    ));
                    assert(exists|a: T, b: T| #[trigger]
                        is_direct_light(color, self.intensity, *material, a, b, r.0, r.1));
                }
            }
            r
        }
    }

    /// Calculate the color of some point in space: the light that the
    /// surface of `object` at `point` sends to the eye. The colour of the
    /// surface is that of the material's pattern at the point, if it has
    /// one, else the material's own.
    pub fn lighting(
        &self,
        object: &Shape<T>,
        material: &Material<T>,
        point: &Vec4D<T>,
        eye: &Vec4D<T>,
        normal: &Vec4D<T>,
        in_shadow: bool,
    ) -> (c: Color<T>)
        requires
            total_field::<T>(),
            self.wf(),
            object.wf(),
            material.wf(),
            point.wf(),
            eye.wf(),
            normal.wf(),
        ensures
            obeys_field::<T>() && T::obeys_eq_spec() ==> exists|color: Color<T>| #[trigger]
                is_lighting(color, self.intensity, *material, in_shadow, c) && is_surface_color(
                    *material,
                    object.placement.inverse@,
                    point@,
                    color,
                ),
    {
        let color = match &material.pattern {
            Some(pattern) => pattern.at(object, point),
            None => material.color,
        };
        let effective_color = color * self.intensity;
        let ambient = effective_color * material.ambient;
        if in_shadow {
            proof {
                if obeys_field::<T>() && T::obeys_eq_spec() {
                    assert(is_lighting(color, self.intensity, *material, in_shadow, ambient)
                        && is_surface_color(*material, object.placement.inverse@, point@, color));
                }
            }
            ambient
        } else {
            let (diffuse, specular) = self.direct_light(color, material, point, eye, normal);
            let c = ambient + diffuse + specular;
            proof {
                if obeys_field::<T>() {
                    let (ldn, rde): (T, T) = choose|ldn: T, rde: T| #[trigger]
                        is_direct_light(
                            color,
                            self.intensity,
                            *material,
                            ldn,
                            rde,
                            diffuse,
                            specular,
                        );
                    assert(is_direct_light(
                        color,
                        self.intensity,
                        *material,
                        ldn,
                        rde,
                        diffuse,
                        specular,
                    ) && c == Pixel::plus(Pixel::plus(ambient, diffuse), specular));
                    assert(is_lighting(color, self.intensity, *material, in_shadow, c));
                    if T::obeys_eq_spec() {
                        assert(is_lighting(color, self.intensity, *material, in_shadow, c)
                            && is_surface_color(
                            *material,
                            object.placement.inverse@,
                            point@,
                            color,
                        ));
                    }
                }
            }
            c
        }
    }
}

} // verus!
