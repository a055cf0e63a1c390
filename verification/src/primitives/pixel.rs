//! Colours in RGB space.
use super::approx_eq::ApproxEq;
use super::scalar::{obeys_field, obeys_order, total_field, Elementary, Scalar};
use super::tmatrix::prelude::{one, spec_one, spec_zero, zero};
use std::ops::{Add, Mul, Sub};
use vstd::prelude::*;
use vstd::std_specs::cmp::PartialOrdIs;
use vstd::std_specs::convert::FromSpec;
use vstd::std_specs::ops::{AddSpec, DivSpec, MulSpec, SubSpec};

verus! {

/// A pixel in RGB colour space
#[derive(Copy, Clone, Debug, PartialEq, PartialOrd)]
pub struct Pixel<T> {
    pub r: T,
    pub g: T,
    pub b: T,
}

/// The larger of two scalars: the second unless the first is above it.
pub open spec fn max_spec<T: PartialOrd>(a: T, b: T) -> T {
    if a.is_gt(&b) {
        a
    } else {
        b
    }
}

/// The larger of two scalars: the second unless the first is above it.
pub fn max_of<T: PartialOrd>(a: T, b: T) -> (r: T)
    ensures
        r == a || r == b,
        obeys_order::<T>() ==> r == max_spec(a, b),
{
    if a > b {
        a
    } else {
        b
    }
}

impl<T: Scalar> Pixel<T> {
    pub fn new_rgb(r: T, g: T, b: T) -> (p: Self)
        ensures
            p.r == r,
            p.g == g,
            p.b == b,
    {
        Pixel { r, g, b }
    }

    /// Apply a function to each element of the pixel creating a new pixel.
    pub fn map<G: Fn(T) -> T>(self, f: G) -> (p: Self)
        requires
            call_requires(f, (self.r,)),
            call_requires(f, (self.g,)),
            call_requires(f, (self.b,)),
        ensures
            call_ensures(f, (self.r,), p.r),
            call_ensures(f, (self.g,), p.g),
            call_ensures(f, (self.b,), p.b),
    {
        Pixel::new_rgb(f(self.r), f(self.g), f(self.b))
    }

    /// Create a new pixel by combining two pixels elementwise using f.
    pub fn combine<G: Fn(T, T) -> T>(self, other: Self, f: G) -> (p: Self)
        requires
            call_requires(f, (self.r, other.r)),
            call_requires(f, (self.g, other.g)),
            call_requires(f, (self.b, other.b)),
        ensures
            call_ensures(f, (self.r, other.r), p.r),
            call_ensures(f, (self.g, other.g), p.g),
            call_ensures(f, (self.b, other.b), p.b),
    {
        Pixel::new_rgb(f(self.r, other.r), f(self.g, other.g), f(self.b, other.b))
    }

    /// Blend two colours / compute the hadamard product of two colours
    pub fn blend(self, other: Self) -> (p: Self)
        requires
            self.mul_req(other),
        ensures
            T::obeys_mul_spec() ==> p == Self::times(self, other),
    {
        self * other
    }

    /// The colour that is in each channel the brighter of the two.
    pub fn blend_lighten_only(self, other: Self) -> (p: Self)
        ensures
            p.r == self.r || p.r == other.r,
            p.g == self.g || p.g == other.g,
            p.b == self.b || p.b == other.b,
            obeys_order::<T>() ==> p == (Pixel {
                r: max_spec(self.r, other.r),
                g: max_spec(self.g, other.g),
                b: max_spec(self.b, other.b),
            }),
    {
        Pixel {
            r: max_of(self.r, other.r),
            g: max_of(self.g, other.g),
            b: max_of(self.b, other.b),
        }
    }

    /// The share that one step of a byte has in a channel: one 255th.
    pub open spec fn byte_step() -> T {
        spec_one::<T>().div_spec(T::from_spec(51i8).mul_spec(T::from_spec(5i8)))
    }

    /// `p` is the colour of three bytes: in each channel the byte as a
    /// scalar, times one 255th.
    pub open spec fn is_from_bytes(bytes: (u8, u8, u8), p: Self) -> bool {
        exists|r: T, g: T, b: T|
            {
                &&& #[trigger] call_ensures(T::from_usize, (bytes.0 as usize,), r)
                &&& #[trigger] call_ensures(T::from_usize, (bytes.1 as usize,), g)
                &&& #[trigger] call_ensures(T::from_usize, (bytes.2 as usize,), b)
                &&& p == (Pixel {
                    r: Self::byte_step().mul_spec(r),
                    g: Self::byte_step().mul_spec(g),
                    b: Self::byte_step().mul_spec(b),
                })
            }
    }

    /// The colour of three bytes, each from 0 for none to 255 for full.
    pub fn from_bytes(bytes: (u8, u8, u8)) -> (p: Self)
        requires
            total_field::<T>(),
        ensures
            obeys_field::<T>() ==> Self::is_from_bytes(bytes, p),
    {
        let o: T = one();
        let factor = o / (T::from(51i8) * T::from(5i8));
        let r = T::from_usize(usize::from(bytes.0));
        let g = T::from_usize(usize::from(bytes.1));
        let b = T::from_usize(usize::from(bytes.2));
        let p = Pixel::new_rgb(factor * r, factor * g, factor * b);
        proof {
            if obeys_field::<T>() {
                assert(call_ensures(T::from_usize, (bytes.0 as usize,), r) && call_ensures(
                    T::from_usize,
                    (bytes.1 as usize,),
                    g,
                ) && call_ensures(T::from_usize, (bytes.2 as usize,), b) && p == (Pixel {
                    r: Self::byte_step().mul_spec(r),
                    g: Self::byte_step().mul_spec(g),
                    b: Self::byte_step().mul_spec(b),
                }));
            }
        }
        p
    }

    /// The colour with the distance from zero in each channel.
    pub fn abs(self) -> (p: Self)
        requires
            total_field::<T>(),
        ensures
            obeys_field::<T>() ==> p == (Pixel {
                r: crate::primitives::tmatrix::arithmetic::abs_spec(self.r),
                g: crate::primitives::tmatrix::arithmetic::abs_spec(self.g),
                b: crate::primitives::tmatrix::arithmetic::abs_spec(self.b),
            }),
    {
        Pixel {
            r: crate::shapes::plane::abs(self.r),
            g: crate::shapes::plane::abs(self.g),
            b: crate::shapes::plane::abs(self.b),
        }
    }

    pub fn red() -> (p: Self)
        ensures
            T::obeys_from_spec() ==> p == (Pixel {
                r: spec_one::<T>(),
                g: spec_zero::<T>(),
                b: spec_zero::<T>(),
            }),
    {
        Pixel::new_rgb(one(), zero(), zero())
    }

    pub fn green() -> (p: Self)
        ensures
            T::obeys_from_spec() ==> p == (Pixel {
                r: spec_zero::<T>(),
                g: spec_one::<T>(),
                b: spec_zero::<T>(),
            }),
    {
        Pixel::new_rgb(zero(), one(), zero())
    }

    pub fn blue() -> (p: Self)
        ensures
            T::obeys_from_spec() ==> p == (Pixel {
                r: spec_zero::<T>(),
                g: spec_zero::<T>(),
                b: spec_one::<T>(),
            }),
    {
        Pixel::new_rgb(zero(), zero(), one())
    }

    pub fn white() -> (p: Self)
        ensures
            T::obeys_from_spec() ==> p == Self::spec_white(),
    {
        Pixel::new_rgb(one(), one(), one())
    }

    pub fn black() -> (p: Self)
        ensures
            T::obeys_from_spec() ==> p == Self::spec_black(),
    {
        Pixel::new_rgb(zero(), zero(), zero())
    }

    /// The colour with one in each channel.
    pub open spec fn spec_white() -> Self {
        Pixel { r: spec_one::<T>(), g: spec_one::<T>(), b: spec_one::<T>() }
    }

    /// The colour with zero in each channel.
    pub open spec fn spec_black() -> Self {
        Pixel { r: spec_zero::<T>(), g: spec_zero::<T>(), b: spec_zero::<T>() }
    }

    /// The channelwise sum of two colours.
    pub open spec fn plus(a: Self, b: Self) -> Self {
        Pixel { r: a.r.add_spec(b.r), g: a.g.add_spec(b.g), b: a.b.add_spec(b.b) }
    }

    /// The channelwise difference of two colours.
    pub open spec fn minus(a: Self, b: Self) -> Self {
        Pixel { r: a.r.sub_spec(b.r), g: a.g.sub_spec(b.g), b: a.b.sub_spec(b.b) }
    }

    /// The channelwise product of two colours.
    pub open spec fn times(a: Self, b: Self) -> Self {
        Pixel { r: a.r.mul_spec(b.r), g: a.g.mul_spec(b.g), b: a.b.mul_spec(b.b) }
    }

    /// A colour with each channel multiplied by `s`.
    pub open spec fn scaled(a: Self, s: T) -> Self {
        Pixel { r: a.r.mul_spec(s), g: a.g.mul_spec(s), b: a.b.mul_spec(s) }
    }
}

impl<T: Scalar> vstd::std_specs::ops::AddSpecImpl for Pixel<T> {
    open spec fn obeys_add_spec() -> bool {
        T::obeys_add_spec()
    }

    open spec fn add_req(self, rhs: Pixel<T>) -> bool {
        self.r.add_req(rhs.r) && self.g.add_req(rhs.g) && self.b.add_req(rhs.b)
    }

    open spec fn add_spec(self, rhs: Pixel<T>) -> Pixel<T> {
        Self::plus(self, rhs)
    }
}

impl<T: Scalar> Add for Pixel<T> {
    type Output = Pixel<T>;

    fn add(self, other: Pixel<T>) -> (p: Pixel<T>) {
        Pixel { r: self.r + other.r, g: self.g + other.g, b: self.b + other.b }
    }
}

impl<T: Scalar> vstd::std_specs::ops::SubSpecImpl for Pixel<T> {
    open spec fn obeys_sub_spec() -> bool {
        T::obeys_sub_spec()
    }

    open spec fn sub_req(self, rhs: Pixel<T>) -> bool {
        self.r.sub_req(rhs.r) && self.g.sub_req(rhs.g) && self.b.sub_req(rhs.b)
    }

    open spec fn sub_spec(self, rhs: Pixel<T>) -> Pixel<T> {
        Self::minus(self, rhs)
    }
}

impl<T: Scalar> Sub for Pixel<T> {
    type Output = Pixel<T>;

    fn sub(self, other: Pixel<T>) -> (p: Pixel<T>) {
        Pixel { r: self.r - other.r, g: self.g - other.g, b: self.b - other.b }
    }
}

impl<T: Scalar> vstd::std_specs::ops::MulSpecImpl for Pixel<T> {
    open spec fn obeys_mul_spec() -> bool {
        T::obeys_mul_spec()
    }

    open spec fn mul_req(self, rhs: Pixel<T>) -> bool {
        self.r.mul_req(rhs.r) && self.g.mul_req(rhs.g) && self.b.mul_req(rhs.b)
    }

    open spec fn mul_spec(self, rhs: Pixel<T>) -> Pixel<T> {
        Self::times(self, rhs)
    }
}

impl<T: Scalar> Mul for Pixel<T> {
    type Output = Pixel<T>;

    fn mul(self, other: Pixel<T>) -> (p: Pixel<T>) {
        Pixel { r: self.r * other.r, g: self.g * other.g, b: self.b * other.b }
    }
}

impl<T: Scalar> vstd::std_specs::ops::MulSpecImpl<T> for Pixel<T> {
    open spec fn obeys_mul_spec() -> bool {
        T::obeys_mul_spec()
    }

    open spec fn mul_req(self, rhs: T) -> bool {
        self.r.mul_req(rhs) && self.g.mul_req(rhs) && self.b.mul_req(rhs)
    }

    open spec fn mul_spec(self, rhs: T) -> Pixel<T> {
        Self::scaled(self, rhs)
    }
}

impl<T: Scalar> Mul<T> for Pixel<T> {
    type Output = Pixel<T>;

    fn mul(self, other: T) -> (p: Pixel<T>) {
        Pixel { r: self.r * other, g: self.g * other, b: self.b * other }
    }
}

impl<T: Scalar> ApproxEq for Pixel<T> {
    open spec fn obeys_approx_eq() -> bool {
        <T as ApproxEq>::obeys_approx_eq()
    }

    open spec fn approx_eq_req(self, other: Pixel<T>) -> bool {
        &&& self.r.approx_eq_req(other.r)
        &&& self.g.approx_eq_req(other.g)
        &&& self.b.approx_eq_req(other.b)
    }

    open spec fn approx_eq_spec(self, other: Pixel<T>) -> bool {
        &&& self.r.approx_eq_spec(other.r)
        &&& self.g.approx_eq_spec(other.g)
        &&& self.b.approx_eq_spec(other.b)
    }

    fn approx_eq(self, other: Pixel<T>) -> (r: bool) {
        self.r.approx_eq(other.r) && self.g.approx_eq(other.g) && self.b.approx_eq(other.b)
    }
}

impl<T: Scalar> Default for Pixel<T> {
    fn default() -> (p: Self)
        ensures
            T::obeys_from_spec() ==> p == Self::spec_black(),
    {
        Pixel::new_rgb(zero(), zero(), zero())
    }
}

/// The colour type of the shading code.
pub type Color<T> = Pixel<T>;

} // verus!
