//! The procedural colourings that a pattern can apply.
use crate::primitives::pixel::{Color, Pixel};
use crate::primitives::scalar::{obeys_field, total_field, Elementary, Scalar};
use crate::primitives::tmatrix::prelude::{spec_one, spec_zero, zero};
use crate::primitives::vector::Vec4D;
use vstd::prelude::*;
use vstd::std_specs::cmp::PartialEqSpec;
use vstd::std_specs::convert::FromSpec;
use vstd::std_specs::ops::{AddSpec, MulSpec, RemSpec, SubSpec};

verus! {

/// The colourings on offer.
#[derive(Clone, Copy, Debug, PartialEq, Eq, Structural)]
pub enum PatternKind {
    /// White and black stripes across the x axis, one unit wide.
    StripeXWhiteBlack,
    /// A gradient from white to black over each unit of the x axis.
    GradientXWhiteBlack,
    /// A gradient from red to blue over each unit of the x axis.
    GradientXRedBlue,
    /// White and black rings around the y axis, one unit wide.
    RingXzWhiteBlack,
    /// White and black cubes of one unit.
    CheckersWhiteBlack,
}

/// Whether a whole number is even: it leaves no remainder when divided by
/// two.
pub fn is_even<T: Scalar>(n: T) -> (r: bool)
    requires
        total_field::<T>(),
    ensures
        obeys_field::<T>() && T::obeys_eq_spec() ==> r == even(n),
{
    let z: T = zero();
    n % T::from(2i8) == z
}

/// The first colour where `even`, else the second.
pub fn pick<T: Scalar>(even: bool, color_1: Color<T>, color_2: Color<T>) -> (c: Color<T>)
    ensures
        c == if even {
            color_1
        } else {
            color_2
        },
{
    if even {
        color_1
    } else {
        color_2
    }
}

/// The colour between two colours at the fraction `f` of the way.
pub fn gradient<T: Scalar>(color_1: Color<T>, color_2: Color<T>, f: T) -> (c: Color<T>)
    requires
        total_field::<T>(),
    ensures
        obeys_field::<T>() ==> c == between(color_1, color_2, f),
{
    color_1 + (color_2 - color_1) * f
}

/// Whether a whole number counts as even.
pub open spec fn even<T: Scalar>(n: T) -> bool {
    n.rem_spec(T::from_spec(2i8)).eq_spec(&spec_zero::<T>())
}

/// White where `is_even`, else black.
pub open spec fn white_or_black<T: Scalar>(is_even: bool) -> Color<T> {
    if is_even {
        Pixel::<T>::spec_white()
    } else {
        Pixel::<T>::spec_black()
    }
}

/// The colour between two colours at the fraction `f` of the way.
pub open spec fn between<T: Scalar>(color_1: Color<T>, color_2: Color<T>, f: T) -> Color<T> {
    Pixel::plus(color_1, Pixel::scaled(Pixel::minus(color_2, color_1), f))
}

/// `c` is the colour of a pattern of the given kind at a point of pattern
/// space, where `floor` and `sqrt` stand for what the scalar's functions of
/// these names returned:
///
/// - stripes: white where `floor(x)` is even, else black;
/// - gradients: from the first colour at `x = floor(x)` on towards the
///   second, by the fraction `x - floor(x)`;
/// - rings: white where `floor(sqrt(x² + z²))` is even, else black;
/// - checkers: white where `floor(x) + floor(y) + floor(z)` is even, else
///   black.
pub open spec fn is_pattern_color<T: Scalar>(kind: PatternKind, point: Seq<T>, c: Color<T>) -> bool {
    let x = point[0];
    let y = point[1];
    let z = point[2];
    match kind {
        PatternKind::StripeXWhiteBlack => exists|fx: T| #[trigger]
            call_ensures(T::floor, (x,), fx) && c == white_or_black::<T>(even(fx)),
        PatternKind::GradientXWhiteBlack => exists|fx: T| #[trigger]
            call_ensures(T::floor, (x,), fx) && c == between(
                Pixel::<T>::spec_white(),
                Pixel::<T>::spec_black(),
                x.sub_spec(fx),
            ),
        PatternKind::GradientXRedBlue => exists|fx: T| #[trigger]
            call_ensures(T::floor, (x,), fx) && c == between(
                Pixel { r: spec_one::<T>(), g: spec_zero::<T>(), b: spec_zero::<T>() },
                Pixel { r: spec_zero::<T>(), g: spec_zero::<T>(), b: spec_one::<T>() },
                x.sub_spec(fx),
            ),
        PatternKind::RingXzWhiteBlack => exists|root: T, f: T|
            #![trigger call_ensures(T::sqrt, (x.mul_spec(x).add_spec(z.mul_spec(z)),), root), call_ensures(T::floor, (root,), f)]
            call_ensures(T::sqrt, (x.mul_spec(x).add_spec(z.mul_spec(z)),), root) && call_ensures(
                T::floor,
                (root,),
                f,
            ) && c == white_or_black::<T>(even(f)),
        PatternKind::CheckersWhiteBlack => exists|fx: T, fy: T, fz: T|
            #![trigger call_ensures(T::floor, (x,), fx), call_ensures(T::floor, (y,), fy), call_ensures(T::floor, (z,), fz)]
            call_ensures(T::floor, (x,), fx) && call_ensures(T::floor, (y,), fy) && call_ensures(
                T::floor,
                (z,),
                fz,
            ) && c == white_or_black::<T>(even(fx.add_spec(fy).add_spec(fz))),
    }
}

/// The colour of a pattern of the given kind at a point of pattern space.
pub fn color_of<T: Scalar>(kind: PatternKind, point: &Vec4D<T>) -> (c: Color<T>)
    requires
        total_field::<T>(),
        point.wf(),
    ensures
        obeys_field::<T>() && T::obeys_eq_spec() ==> is_pattern_color(kind, point@, c),
{
    proof {
        crate::primitives::transformation_matrices::lemma_dims_4();
    }
    match kind {
        PatternKind::StripeXWhiteBlack => {
            let fx = point.x().floor();
            let c = pick(is_even(fx), Color::white(), Color::black());
            proof {
                if obeys_field::<T>() && T::obeys_eq_spec() {
                    assert(call_ensures(T::floor, (point@[0],), fx) && c == white_or_black::<T>(
                        even(fx),
                    ));
                }
            }
            c
        },
        PatternKind::GradientXWhiteBlack => {
            let x = point.x();
            let fx = x.floor();
            let c = gradient(Color::white(), Color::black(), x - fx);
            proof {
                if obeys_field::<T>() && T::obeys_eq_spec() {
                    assert(call_ensures(T::floor, (x,), fx) && c == between(
                        Pixel::<T>::spec_white(),
                        Pixel::<T>::spec_black(),
                        x.sub_spec(fx),
                    ));
                }
            }
            c
        },
        PatternKind::GradientXRedBlue => {
            let x = point.x();
            let fx = x.floor();
            let c = gradient(Color::red(), Color::blue(), x - fx);
            proof {
                if obeys_field::<T>() && T::obeys_eq_spec() {
                    assert(call_ensures(T::floor, (x,), fx) && c == between(
                        Pixel { r: spec_one::<T>(), g: spec_zero::<T>(), b: spec_zero::<T>() },
                        Pixel { r: spec_zero::<T>(), g: spec_zero::<T>(), b: spec_one::<T>() },
                        x.sub_spec(fx),
                    ));
                }
            }
            c
        },
        PatternKind::RingXzWhiteBlack => {
            let x = point.x();
            let z = point.z();
            let root = (x * x + z * z).sqrt();
            let f = root.floor();
            let c = pick(is_even(f), Color::white(), Color::black());
            proof {
                if obeys_field::<T>() && T::obeys_eq_spec() {
                    assert(call_ensures(T::sqrt, (x.mul_spec(x).add_spec(z.mul_spec(z)),), root)
                        && call_ensures(T::floor, (root,), f) && c == white_or_black::<T>(even(f)));
                }
            }
            c
        },
        PatternKind::CheckersWhiteBlack => {
            let x = point.x();
            let y = point.y();
            let z = point.z();
            let fx = x.floor();
            let fy = y.floor();
            let fz = z.floor();
            let c = pick(is_even(fx + fy + fz), Color::white(), Color::black());
            proof {
                if obeys_field::<T>() && T::obeys_eq_spec() {
                    assert(call_ensures(T::floor, (x,), fx) && call_ensures(T::floor, (y,), fy)
                        && call_ensures(T::floor, (z,), fz) && c == white_or_black::<T>(
                        even(fx.add_spec(fy).add_spec(fz)),
                    ));
                }
            }
            c
        },
    }
}

} // verus!
