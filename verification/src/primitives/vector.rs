//! Vectors and points of 3D space, in homogeneous coordinates.
use super::scalar::{total_field, Scalar};
use super::tmatrix::arithmetic::{
    dot, dot_req, is_product, mat_mul, mul_scalar, product_req, sub_elems,
};
use super::tmatrix::prelude::{
    entry, one, spec_one, spec_zero, total_add, total_mul, total_sub, zero,
};
use super::tmatrix::Matrix;
use super::transformation_matrices::lemma_dims_4;
use crate::utils::typelevel_nums::{Val, N1, N4};
use std::ops::{Add, Mul, Sub};
use vstd::prelude::*;
use vstd::std_specs::convert::FromSpec;
use vstd::std_specs::ops::{AddSpec, MulSpec, SubSpec};

verus! {

/// A general 4D Vector
pub type Vec4D<T> = Matrix<T, N4, N1>;

/// Construct a new vector in 3D space: its fourth entry is zero
pub fn vector<T: From<i8>>(x: T, y: T, z: T) -> (r: Vec4D<T>)
    ensures
        r.wf(),
        r@.len() == 4,
        r@[0] == x,
        r@[1] == y,
        r@[2] == z,
        T::obeys_from_spec() ==> r@[3] == spec_zero::<T>(),
{
    proof {
        lemma_dims_4();
    }
    Vec4D::from(vec![x, y, z, zero()])
}

/// Construct a new vector in 3D space: its fourth entry is zero
pub fn vec3<T: From<i8>>(x: T, y: T, z: T) -> (r: Vec4D<T>)
    ensures
        r.wf(),
        r@.len() == 4,
        r@[0] == x,
        r@[1] == y,
        r@[2] == z,
        T::obeys_from_spec() ==> r@[3] == spec_zero::<T>(),
{
    vector(x, y, z)
}

/// Construct a new point in 3D space: its fourth entry is one
pub fn point<T: From<i8>>(x: T, y: T, z: T) -> (r: Vec4D<T>)
    ensures
        r.wf(),
        r@.len() == 4,
        r@[0] == x,
        r@[1] == y,
        r@[2] == z,
        T::obeys_from_spec() ==> r@[3] == spec_one::<T>(),
{
    proof {
        lemma_dims_4();
    }
    Vec4D::from(vec![x, y, z, one()])
}

impl<T: Copy> Vec4D<T> {
    pub fn x(&self) -> (r: T)
        requires
            self@.len() > 0,
        ensures
            r == self@[0],
    {
        proof {
            lemma_dims_4();
        }
        self[(0, 0)]
    }

    pub fn y(&self) -> (r: T)
        requires
            self@.len() > 1,
        ensures
            r == self@[1],
    {
        proof {
            lemma_dims_4();
        }
        self[(1, 0)]
    }

    pub fn z(&self) -> (r: T)
        requires
            self@.len() > 2,
        ensures
            r == self@[2],
    {
        proof {
            lemma_dims_4();
        }
        self[(2, 0)]
    }

    pub fn w(&self) -> (r: T)
        requires
            self@.len() > 3,
        ensures
            r == self@[3],
    {
        proof {
            lemma_dims_4();
        }
        self[(3, 0)]
    }

    pub fn set_x(&mut self, v: T)
        requires
            old(self)@.len() > 0,
        ensures
            final(self)@ == old(self)@.update(0, v),
    {
        proof {
            lemma_dims_4();
        }
        self.set((0, 0), v);
    }

    pub fn set_y(&mut self, v: T)
        requires
            old(self)@.len() > 1,
        ensures
            final(self)@ == old(self)@.update(1, v),
    {
        proof {
            lemma_dims_4();
        }
        self.set((1, 0), v);
    }

    pub fn set_z(&mut self, v: T)
        requires
            old(self)@.len() > 2,
        ensures
            final(self)@ == old(self)@.update(2, v),
    {
        proof {
            lemma_dims_4();
        }
        self.set((2, 0), v);
    }

    pub fn set_w(&mut self, v: T)
        requires
            old(self)@.len() > 3,
        ensures
            final(self)@ == old(self)@.update(3, v),
    {
        proof {
            lemma_dims_4();
        }
        self.set((3, 0), v);
    }
}

impl<T: From<i8>> Vec4D<T> {
    /// The point that all coordinates are measured from.
    pub fn origin() -> (r: Self)
        ensures
            r.wf(),
            r@.len() == 4,
            T::obeys_from_spec() ==> r@ == seq![
                spec_zero::<T>(),
                spec_zero::<T>(),
                spec_zero::<T>(),
                spec_one::<T>(),
            ],
    {
        let r = point(zero(), zero(), zero());
        assert(T::obeys_from_spec() ==> r@ =~= seq![
            spec_zero::<T>(),
            spec_zero::<T>(),
            spec_zero::<T>(),
            spec_one::<T>(),
        ]);
        r
    }

    /// x direction unit vector
    pub fn unit_x() -> (r: Self)
        ensures
            r.wf(),
            r@.len() == 4,
            T::obeys_from_spec() ==> r@ == seq![
                spec_one::<T>(),
                spec_zero::<T>(),
                spec_zero::<T>(),
                spec_zero::<T>(),
            ],
    {
        let r = vector(one(), zero(), zero());
        assert(T::obeys_from_spec() ==> r@ =~= seq![
            spec_one::<T>(),
            spec_zero::<T>(),
            spec_zero::<T>(),
            spec_zero::<T>(),
        ]);
        r
    }

    /// y direction unit vector
    pub fn unit_y() -> (r: Self)
        ensures
            r.wf(),
            r@.len() == 4,
            T::obeys_from_spec() ==> r@ == seq![
                spec_zero::<T>(),
                spec_one::<T>(),
                spec_zero::<T>(),
                spec_zero::<T>(),
            ],
    {
        let r = vector(zero(), one(), zero());
        assert(T::obeys_from_spec() ==> r@ =~= seq![
            spec_zero::<T>(),
            spec_one::<T>(),
            spec_zero::<T>(),
            spec_zero::<T>(),
        ]);
        r
    }

    /// z direction unit vector
    pub fn unit_z() -> (r: Self)
        ensures
            r.wf(),
            r@.len() == 4,
            T::obeys_from_spec() ==> r@ == seq![
                spec_zero::<T>(),
                spec_zero::<T>(),
                spec_one::<T>(),
                spec_zero::<T>(),
            ],
    {
        let r = vector(zero(), zero(), one());
        assert(T::obeys_from_spec() ==> r@ =~= seq![
            spec_zero::<T>(),
            spec_zero::<T>(),
            spec_one::<T>(),
            spec_zero::<T>(),
        ]);
        r
    }
}

/// The scalar product of two buffers of four entries: the sum of the four
/// products of entries at the same position, added up from the left.
pub open spec fn scalar_prod_seq<T: Add<Output = T> + Mul<Output = T>>(a: Seq<T>, b: Seq<T>) -> T {
    dot(a, b, 4, 1, 0, 0, 4)
}

/// The two vectors have four entries each, and every step of
/// [`scalar_prod_seq`] can be computed.
pub open spec fn scalar_prod_seq_req<T: Add<Output = T> + Mul<Output = T>>(
    a: Seq<T>,
    b: Seq<T>,
) -> bool {
    &&& a.len() == 4
    &&& b.len() == 4
    &&& (total_add::<T>() && total_mul::<T>()) || {
        &&& T::obeys_add_spec()
        &&& T::obeys_mul_spec()
        &&& dot_req(a, b, 4, 1, 0, 0, 4)
    }
}

/// The scalar product of two vectors.
pub fn scalar_prod_of<T: Copy + Default + Add<Output = T> + Mul<Output = T>>(
    a: &Vec4D<T>,
    b: &Vec4D<T>,
) -> (r: T)
    requires
        scalar_prod_seq_req(a@, b@),
    ensures
        T::obeys_add_spec() && T::obeys_mul_spec() ==> r == scalar_prod_seq(a@, b@),
{
    proof {
        lemma_dims_4();
    }
    let t = a.transpose();
    proof {
        assert forall|k: int| 0 <= k < 4 implies t@[k] == a@[k] by {
            assert(t.at(0, k) == a.at(k, 0));
        }
        assert(t@ =~= a@);
        assert forall|i: int, j: int|
            0 <= i < 1 && 0 <= j < 1 && dot_req(a@, b@, 4, 1, 0, 0, 4) implies #[trigger] dot_req(
            t@,
            b@,
            4,
            1,
            i,
            j,
            4,
        ) by {}
    }
    let m = mat_mul(&t, b);
    assert(m@[0] == entry(m@, 1, 0, 0));
    m.as_scalar()
}

pub trait ScalarProd<Rhs = Self> {
    type Output;

    /// The scalar's operators are specified.
    spec fn obeys_scalar_prod() -> bool;

    /// The scalar product can be computed.
    spec fn scalar_prod_req(self, other: Rhs) -> bool where Self: Sized;

    /// The scalar product.
    spec fn scalar_prod_spec(self, other: Rhs) -> Self::Output where Self: Sized;

    /// Calculate the dot product / scalar product of two vectors
    fn scalar_prod(self, other: Rhs) -> (r: Self::Output) where Self: Sized
        requires
            self.scalar_prod_req(other),
        ensures
            Self::obeys_scalar_prod() ==> r == self.scalar_prod_spec(other),
    ;
}

/// The entries of the cross product of two vectors of 3D space.
pub open spec fn cross_seq<T: Sub<Output = T> + Mul<Output = T> + From<i8>>(
    a: Seq<T>,
    b: Seq<T>,
) -> Seq<T> {
    seq![
        a[1].mul_spec(b[2]).sub_spec(a[2].mul_spec(b[1])),
        a[2].mul_spec(b[0]).sub_spec(a[0].mul_spec(b[2])),
        a[0].mul_spec(b[1]).sub_spec(a[1].mul_spec(b[0])),
        spec_zero::<T>(),
    ]
}

/// The two vectors have four entries each, and every step of [`cross_seq`]
/// can be computed.
pub open spec fn cross_seq_req<T: Sub<Output = T> + Mul<Output = T> + From<i8>>(
    a: Seq<T>,
    b: Seq<T>,
) -> bool {
    &&& a.len() == 4
    &&& b.len() == 4
    &&& (total_sub::<T>() && total_mul::<T>()) || {
        &&& T::obeys_sub_spec()
        &&& T::obeys_mul_spec()
        &&& a[1].mul_req(b[2])
        &&& a[2].mul_req(b[1])
        &&& a[1].mul_spec(b[2]).sub_req(a[2].mul_spec(b[1]))
        &&& a[2].mul_req(b[0])
        &&& a[0].mul_req(b[2])
        &&& a[2].mul_spec(b[0]).sub_req(a[0].mul_spec(b[2]))
        &&& a[0].mul_req(b[1])
        &&& a[1].mul_req(b[0])
        &&& a[0].mul_spec(b[1]).sub_req(a[1].mul_spec(b[0]))
    }
}

/// The scalar's `-` and `*` and its constants are specified.
pub open spec fn obeys_cross<T: Sub<Output = T> + Mul<Output = T> + From<i8>>() -> bool {
    T::obeys_sub_spec() && T::obeys_mul_spec() && T::obeys_from_spec()
}

/// The cross product of two vectors.
pub fn cross_of<T: Copy + Sub<Output = T> + Mul<Output = T> + From<i8>>(
    a: &Vec4D<T>,
    b: &Vec4D<T>,
) -> (r: Vec4D<T>)
    requires
        cross_seq_req(a@, b@),
    ensures
        r.wf(),
        r@.len() == 4,
        obeys_cross::<T>() ==> r@ == cross_seq(a@, b@),
{
    let r = vector(
        a.y() * b.z() - a.z() * b.y(),
        a.z() * b.x() - a.x() * b.z(),
        a.x() * b.y() - a.y() * b.x(),
    );
    assert(obeys_cross::<T>() ==> r@ =~= cross_seq(a@, b@));
    r
}

/// The entries of a vector bounced off a surface with the given normal:
/// `v - n * 2 * (v·n)`.
pub open spec fn reflect_seq<T: Scalar>(v: Seq<T>, normal: Seq<T>) -> Seq<T> {
    sub_elems(
        v,
        mul_scalar(mul_scalar(normal, T::from_spec(2i8)), scalar_prod_seq(v, normal)),
    )
}

impl<T: Scalar> Vec4D<T> {
    /// Reflect a vector along a normal vector ("Bounce it")
    pub fn reflect(&self, normal: &Self) -> (r: Self)
        requires
            total_field::<T>(),
            self.wf(),
            normal.wf(),
        ensures
            r.wf(),
            T::obeys_add_spec() && T::obeys_sub_spec() && T::obeys_mul_spec()
                && T::obeys_from_spec() ==> r@ == reflect_seq(self@, normal@),
    {
        proof {
            lemma_dims_4();
        }
        self - (normal * T::from(2i8) * scalar_prod_of(self, normal))
    }
}

pub trait CrossProd<Rhs = Self> {
    type Output;

    /// The cross product can be computed.
    spec fn cross_req(self, other: Rhs) -> bool where Self: Sized;

    /// `r` is the cross product.
    spec fn is_cross(self, other: Rhs, r: Self::Output) -> bool where Self: Sized;

    /// Cross product between two vectors
    fn cross(self, other: Rhs) -> (r: Self::Output) where Self: Sized
        requires
            self.cross_req(other),
        ensures
            self.is_cross(other, r),
    ;
}

/// v1 * v2
impl<T: Copy + Default + Add<Output = T> + Mul<Output = T>> ScalarProd for Vec4D<T> {
    type Output = T;

    open spec fn obeys_scalar_prod() -> bool {
        T::obeys_add_spec() && T::obeys_mul_spec()
    }

    open spec fn scalar_prod_req(self, other: Vec4D<T>) -> bool {
        scalar_prod_seq_req(self@, other@)
    }

    open spec fn scalar_prod_spec(self, other: Vec4D<T>) -> T {
        scalar_prod_seq(self@, other@)
    }

    fn scalar_prod(self, other: Vec4D<T>) -> (r: T) {
        scalar_prod_of(&self, &other)
    }
}

/// v1 x v2
impl<T: Copy + Sub<Output = T> + Mul<Output = T> + From<i8>> CrossProd for Vec4D<T> {
    type Output = Vec4D<T>;

    open spec fn cross_req(self, other: Vec4D<T>) -> bool {
        cross_seq_req(self@, other@)
    }

    open spec fn is_cross(self, other: Vec4D<T>, r: Vec4D<T>) -> bool {
        r.wf() && r@.len() == 4 && (obeys_cross::<T>() ==> r@ == cross_seq(self@, other@))
    }

    fn cross(self, other: Vec4D<T>) -> (r: Vec4D<T>) {
        cross_of(&self, &other)
    }
}

/// v1 * &v2
impl<'a, T: Copy + Default + Add<Output = T> + Mul<Output = T>> ScalarProd<&'a Vec4D<T>> for Vec4D<T> {
    type Output = T;

    open spec fn obeys_scalar_prod() -> bool {
        T::obeys_add_spec() && T::obeys_mul_spec()
    }

    open spec fn scalar_prod_req(self, other: &'a Vec4D<T>) -> bool {
        scalar_prod_seq_req(self@, other@)
    }

    open spec fn scalar_prod_spec(self, other: &'a Vec4D<T>) -> T {
        scalar_prod_seq(self@, other@)
    }

    fn scalar_prod(self, other: &'a Vec4D<T>) -> (r: T) {
        scalar_prod_of(&self, other)
    }
}

/// v1 x &v2
impl<'a, T: Copy + Sub<Output = T> + Mul<Output = T> + From<i8>> CrossProd<&'a Vec4D<T>> for Vec4D<T> {
    type Output = Vec4D<T>;

    open spec fn cross_req(self, other: &'a Vec4D<T>) -> bool {
        cross_seq_req(self@, other@)
    }

    open spec fn is_cross(self, other: &'a Vec4D<T>, r: Vec4D<T>) -> bool {
        r.wf() && r@.len() == 4 && (obeys_cross::<T>() ==> r@ == cross_seq(self@, other@))
    }

    fn cross(self, other: &'a Vec4D<T>) -> (r: Vec4D<T>) {
        cross_of(&self, other)
    }
}

/// &v1 * v2
impl<'a, T: Copy + Default + Add<Output = T> + Mul<Output = T>> ScalarProd<Vec4D<T>> for &'a Vec4D<T> {
    type Output = T;

    open spec fn obeys_scalar_prod() -> bool {
        T::obeys_add_spec() && T::obeys_mul_spec()
    }

    open spec fn scalar_prod_req(self, other: Vec4D<T>) -> bool {
        scalar_prod_seq_req(self@, other@)
    }

    open spec fn scalar_prod_spec(self, other: Vec4D<T>) -> T {
        scalar_prod_seq(self@, other@)
    }

    fn scalar_prod(self, other: Vec4D<T>) -> (r: T) {
        scalar_prod_of(self, &other)
    }
}

/// &v1 x v2
impl<'a, T: Copy + Sub<Output = T> + Mul<Output = T> + From<i8>> CrossProd<Vec4D<T>> for &'a Vec4D<T> {
    type Output = Vec4D<T>;

    open spec fn cross_req(self, other: Vec4D<T>) -> bool {
        cross_seq_req(self@, other@)
    }

    open spec fn is_cross(self, other: Vec4D<T>, r: Vec4D<T>) -> bool {
        r.wf() && r@.len() == 4 && (obeys_cross::<T>() ==> r@ == cross_seq(self@, other@))
    }

    fn cross(self, other: Vec4D<T>) -> (r: Vec4D<T>) {
        cross_of(self, &other)
    }
}

/// &v1 * &v2
impl<'a, T: Copy + Default + Add<Output = T> + Mul<Output = T>> ScalarProd for &'a Vec4D<T> {
    type Output = T;

    open spec fn obeys_scalar_prod() -> bool {
        T::obeys_add_spec() && T::obeys_mul_spec()
    }

    open spec fn scalar_prod_req(self, other: &'a Vec4D<T>) -> bool {
        scalar_prod_seq_req(self@, other@)
    }

    open spec fn scalar_prod_spec(self, other: &'a Vec4D<T>) -> T {
        scalar_prod_seq(self@, other@)
    }

    fn scalar_prod(self, other: &'a Vec4D<T>) -> (r: T) {
        scalar_prod_of(self, other)
    }
}

/// &v1 x &v2
impl<'a, T: Copy + Sub<Output = T> + Mul<Output = T> + From<i8>> CrossProd for &'a Vec4D<T> {
    type Output = Vec4D<T>;

    open spec fn cross_req(self, other: &'a Vec4D<T>) -> bool {
        cross_seq_req(self@, other@)
    }

    open spec fn is_cross(self, other: &'a Vec4D<T>, r: Vec4D<T>) -> bool {
        r.wf() && r@.len() == 4 && (obeys_cross::<T>() ==> r@ == cross_seq(self@, other@))
    }

    fn cross(self, other: &'a Vec4D<T>) -> (r: Vec4D<T>) {
        cross_of(self, other)
    }
}

} // verus!
