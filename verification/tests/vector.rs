use rtc::primitives::approx_eq::ApproxEq;
use rtc::primitives::tmatrix::Matrix;
use rtc::primitives::vector::{point, vec3, vector, CrossProd, ScalarProd, Vec4D};
use rtc::utils::typelevel_nums::N4;

#[test]
fn cross() {
    assert!(Vec4D::<f64>::unit_z().approx_eq(&Vec4D::unit_x().cross(Vec4D::unit_y())));
    assert!(Vec4D::<f32>::unit_z().approx_eq(&Vec4D::unit_x().cross(Vec4D::unit_y())));
}

#[test]
fn vector_scalar_prod() {
    let v1 = vector(1.0, -2.0, 3.0);
    let v2 = vector(5.0, 8.2, -3.1);
    assert!(v1.scalar_prod(v2).approx_eq(5.0 - 16.4 - 9.3));
    let v1 = vector(1.0, -2.0, 3.0);
    let v2 = vector(5.0, 8.2, -3.1);
    assert!(v1.scalar_prod(v2).approx_eq(5.0 - 16.4 - 9.3));
}

#[test]
fn vector_mul() {
    let a = Matrix::<i32, N4, N4>::from(vec![1, 0, 0, 4, 0, 1, 0, 8, 0, 0, 1, 6, 0, 0, 0, 1]);
    let b = point(2, 3, 4);
    let c = Vec4D::from(vec![6, 11, 10, 1]);
    assert_eq!(a.clone() * b, c);
    let b = vector(2, 3, 4);
    let c = Vec4D::from(vec![2, 3, 4, 0]);
    assert_eq!(a * b, c);
}

#[test]
fn cross_of_integers_is_exact() {
    let a = vector(1, 2, 3);
    let b = vector(2, 3, 4);
    assert_eq!((&a).cross(&b), vector(-1, 2, -1));
    assert_eq!(b.cross(a), vector(1, -2, 1));
}

#[test]
fn scalar_prod_of_integers_is_exact() {
    assert_eq!(vector(1, 2, 3).scalar_prod(vector(2, 3, 4)), 20);
    assert_eq!(point(1, 2, 3).scalar_prod(&point(2, 3, 4)), 21);
}

#[test]
fn accessors_and_setters() {
    let mut p = point(1, 2, 3);
    assert_eq!((p.x(), p.y(), p.z(), p.w()), (1, 2, 3, 1));
    p.set_x(5);
    p.set_y(6);
    p.set_z(7);
    p.set_w(0);
    assert_eq!(p, vector(5, 6, 7));
    assert_eq!(Vec4D::<i32>::origin(), point(0, 0, 0));
}

#[test]
fn construct() {
    let p = point(4.3, -4.2, 3.1);
    assert!(p.x().approx_eq(4.3));
    assert!(p.y().approx_eq(-4.2));
    assert!(p.z().approx_eq(3.1));
    assert_eq!(p.w(), 1.0);
    assert_eq!(vector(4.3, -4.2, 3.1).w(), 0.0);
}

#[test]
fn point_add() {
    let p1 = point(3.0, -2.0, 5.0);
    let v = vector(-2.0, 3.0, 1.0);
    assert!((p1 + v).approx_eq(&point(1.0, 1.0, 6.0)));
}

#[test]
fn sub_vec() {
    let p1 = point(3.0, -2.0, 5.0);
    let v = vector(2.0, -3.0, -1.0);
    assert!((p1 - v).approx_eq(&point(1.0, 1.0, 6.0)));
}

#[test]
fn sub_point() {
    let p1 = point(3.0, -2.0, 5.0);
    let p2 = point(-3.0, 10.0, 8.0);
    assert!((p2 - p1).approx_eq(&vector(-6.0, 12.0, 3.0)));
}

#[test]
fn vec3_is_a_vector() {
    assert_eq!(vec3(1, 2, 3), vector(1, 2, 3));
}
