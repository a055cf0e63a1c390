use rtc::primitives::approx_eq::{epsilon, ApproxEq};
use rtc::primitives::tmatrix::Matrix;
use rtc::utils::typelevel_nums::N2;

#[test]
fn approx_eq_f64() {
    assert!(4.2_f64.approx_eq(4.2000000000000001));
    assert!(!1.2_f64.approx_eq(1.1));
}

#[test]
fn approx_eq_f32() {
    assert!(4.2_f32.approx_eq(4.2000000000000001));
    assert!(!1.2_f32.approx_eq(1.1));
}

#[test]
#[should_panic]
fn approx_eq_macro_panic() {
    assert!(4.2_f64.approx_eq(4.3), "assertion failed: `(left ≈ right)`");
}

#[test]
fn approx_eq_macro() {
    assert!(4.2_f64.approx_eq(4.2000000000000001));
}

#[test]
fn epsilon_is_one_ten_thousandth() {
    assert_eq!(epsilon::<f64>(), 0.1e-3);
    assert_eq!(epsilon::<f32>(), 0.1e-3);
}

#[test]
fn approx_eq_is_strict_at_epsilon() {
    assert!(1.0_f64.approx_eq(1.00009));
    assert!(!1.0_f64.approx_eq(1.0002));
    assert!(1.00009_f64.approx_eq(1.0));
}

#[test]
fn approx_eq_of_matrices_goes_entry_by_entry() {
    let a = Matrix::<f64, N2, N2>::from(vec![1.0, 2.0, 3.0, 4.0]);
    let b = Matrix::<f64, N2, N2>::from(vec![1.00001, 2.0, 3.0, 3.99999]);
    let c = Matrix::<f64, N2, N2>::from(vec![1.0, 2.0, 3.1, 4.0]);
    assert!(a.approx_eq(&b));
    assert!(!a.approx_eq(&c));
}
