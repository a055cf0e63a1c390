use rtc::utils::typelevel_nums::{
    Greater, NatAdd, NatMul, NatSub, Pow, Succ, Val, N0, N1, N10, N100, N16, N2, N4, N5, N64, N7,
    N8,
};

#[test]
fn natural() {
    assert_eq!(N8::val(), 8);
    assert_eq!(<Succ<N8>>::val(), 9);
}

#[test]
fn typelevel_nums_add() {
    assert_eq!(<N7 as NatAdd<N8>>::Output::val(), 15);
}

#[test]
fn greater() {
    assert_eq!(<N0 as Greater<N1>>::Output::val(), N1::val());
    assert_eq!(<N1 as Greater<N0>>::Output::val(), N1::val());
    assert_eq!(<N8 as Greater<N5>>::Output::val(), N8::val());
}

#[test]
fn typelevel_nums_mul() {
    assert_eq!(<N10 as NatMul<N5>>::Output::val(), 50);
    assert_eq!(<N10 as NatMul<<N5 as NatMul<N2>>::Output>>::Output::val(), 100);
}

#[test]
fn typelevel_nums_sub() {
    assert_eq!(<N10 as NatSub<N5>>::Output::val(), 5);
    assert_eq!(<N10 as NatSub<N0>>::Output::val(), 10);
    assert_eq!(<N0 as NatSub<N0>>::Output::val(), 0);
}

#[test]
fn pow() {
    assert_eq!(<N5 as Pow<N0>>::Output::val(), 1);
    assert_eq!(<N2 as Pow<N4>>::Output::val(), 16);
}

#[test]
fn zero_and_aliases() {
    assert_eq!(N0::val(), 0);
    assert_eq!(N16::val(), 16);
    assert_eq!(N64::val(), 64);
    assert_eq!(N100::val(), 100);
}
