use rtc::primitives::tmatrix::iter::deref_all;
use rtc::primitives::tmatrix::Matrix;
use rtc::utils::typelevel_nums::{N1, N2, N3, N4};

#[test]
fn tmatrix_iter_col() {
    let a = Matrix::<i32, N4, N3>::from(vec![1, 2, 3, 5, 6, 7, 9, 8, 7, 6, 5, 4]);
    assert_eq!(a.iter_col(0).into_iter().map(|x| *x).collect::<Vec<_>>(), vec![1, 5, 9, 6]);
    assert_eq!(a.iter_col(1).into_iter().map(|x| *x).collect::<Vec<_>>(), vec![2, 6, 8, 5]);
    assert_eq!(a.iter_col(2).into_iter().map(|x| *x).collect::<Vec<_>>(), vec![3, 7, 7, 4]);
}

#[test]
fn tmatrix_iter_row() {
    let a = Matrix::<i32, N3, N4>::from(vec![1, 5, 9, 6, 2, 6, 8, 5, 3, 7, 7, 4]);
    assert_eq!(a.iter_row(0).into_iter().map(|x| *x).collect::<Vec<_>>(), vec![1, 5, 9, 6]);
    assert_eq!(a.iter_row(1).into_iter().map(|x| *x).collect::<Vec<_>>(), vec![2, 6, 8, 5]);
    assert_eq!(a.iter_row(2).into_iter().map(|x| *x).collect::<Vec<_>>(), vec![3, 7, 7, 4]);
}

#[test]
fn tmatrix_iter_rows() {
    let a = Matrix::<i32, N4, N3>::from(vec![1, 2, 3, 5, 6, 7, 9, 8, 7, 6, 5, 4]);
    let mut b = a.iter_rows().into_iter();
    assert_eq!(b.next().unwrap().into_iter().map(|x| *x).collect::<Vec<_>>(), vec![1, 2, 3]);
    assert_eq!(b.next().unwrap().into_iter().map(|x| *x).collect::<Vec<_>>(), vec![5, 6, 7]);
    assert_eq!(b.next().unwrap().into_iter().map(|x| *x).collect::<Vec<_>>(), vec![9, 8, 7]);
    assert_eq!(b.next().unwrap().into_iter().map(|x| *x).collect::<Vec<_>>(), vec![6, 5, 4]);
}

#[test]
fn tmatrix_iter_cols() {
    let a = Matrix::<i32, N4, N3>::from(vec![1, 2, 3, 5, 6, 7, 9, 8, 7, 6, 5, 4]);
    let mut b = a.iter_cols().into_iter();
    assert_eq!(b.next().unwrap().into_iter().map(|x| *x).collect::<Vec<_>>(), vec![1, 5, 9, 6]);
    assert_eq!(b.next().unwrap().into_iter().map(|x| *x).collect::<Vec<_>>(), vec![2, 6, 8, 5]);
    assert_eq!(b.next().unwrap().into_iter().map(|x| *x).collect::<Vec<_>>(), vec![3, 7, 7, 4]);
}

#[test]
fn tests_iter_col() {
    let a = Matrix::<i32, N4, N3>::from(vec![1, 2, 3, 5, 6, 7, 9, 8, 7, 6, 5, 4]);
    assert_eq!(a.iter_col(0).into_iter().map(|x| *x).collect::<Vec<_>>(), vec![1, 5, 9, 6]);
    assert_eq!(a.iter_col(1).into_iter().map(|x| *x).collect::<Vec<_>>(), vec![2, 6, 8, 5]);
    assert_eq!(a.iter_col(2).into_iter().map(|x| *x).collect::<Vec<_>>(), vec![3, 7, 7, 4]);
}

#[test]
fn tests_iter_row() {
    let a = Matrix::<i32, N3, N4>::from(vec![1, 5, 9, 6, 2, 6, 8, 5, 3, 7, 7, 4]);
    assert_eq!(a.iter_row(0).into_iter().map(|x| *x).collect::<Vec<_>>(), vec![1, 5, 9, 6]);
    assert_eq!(a.iter_row(1).into_iter().map(|x| *x).collect::<Vec<_>>(), vec![2, 6, 8, 5]);
    assert_eq!(a.iter_row(2).into_iter().map(|x| *x).collect::<Vec<_>>(), vec![3, 7, 7, 4]);
}

#[test]
fn tests_iter_rows() {
    let a = Matrix::<i32, N4, N3>::from(vec![1, 2, 3, 5, 6, 7, 9, 8, 7, 6, 5, 4]);
    let mut b = a.iter_rows().into_iter();
    assert_eq!(b.next().unwrap().into_iter().map(|x| *x).collect::<Vec<_>>(), vec![1, 2, 3]);
    assert_eq!(b.next().unwrap().into_iter().map(|x| *x).collect::<Vec<_>>(), vec![5, 6, 7]);
    assert_eq!(b.next().unwrap().into_iter().map(|x| *x).collect::<Vec<_>>(), vec![9, 8, 7]);
    assert_eq!(b.next().unwrap().into_iter().map(|x| *x).collect::<Vec<_>>(), vec![6, 5, 4]);
}

#[test]
fn tests_iter_cols() {
    let a = Matrix::<i32, N4, N3>::from(vec![1, 2, 3, 5, 6, 7, 9, 8, 7, 6, 5, 4]);
    let mut b = a.iter_cols().into_iter();
    assert_eq!(b.next().unwrap().into_iter().map(|x| *x).collect::<Vec<_>>(), vec![1, 5, 9, 6]);
    assert_eq!(b.next().unwrap().into_iter().map(|x| *x).collect::<Vec<_>>(), vec![2, 6, 8, 5]);
    assert_eq!(b.next().unwrap().into_iter().map(|x| *x).collect::<Vec<_>>(), vec![3, 7, 7, 4]);
}

#[test]
fn iter_indexed_names_each_cell() {
    let a = Matrix::<i32, N2, N3>::from(vec![1, 2, 3, 5, 6, 7]);
    let cells: Vec<(usize, usize, i32)> =
        a.iter_indexed().into_iter().map(|(i, j, x)| (i, j, *x)).collect();
    assert_eq!(cells, vec![(0, 0, 1), (0, 1, 2), (0, 2, 3), (1, 0, 5), (1, 1, 6), (1, 2, 7)]);
    assert_eq!(a.clone().into_iter_indexed(), cells);
}

#[test]
fn consuming_iteration() {
    let a = Matrix::<i32, N2, N3>::from(vec![1, 2, 3, 5, 6, 7]);
    assert_eq!(a.clone().into_iter(), vec![1, 2, 3, 5, 6, 7]);
    assert_eq!(a.clone().into_iter_row(1), vec![5, 6, 7]);
    assert_eq!(a.clone().into_iter_row(2), Vec::<i32>::new());
    assert_eq!(a.clone().into_iter_col(2), vec![3, 7]);
    assert_eq!(a.clone().into_iter_col(7), Vec::<i32>::new());
    assert_eq!(a.clone().into_iter_rows(), vec![vec![1, 2, 3], vec![5, 6, 7]]);
    assert_eq!(a.clone().into_iter_cols(), vec![vec![1, 5], vec![2, 6], vec![3, 7]]);
    assert_eq!(deref_all(&a.iter_row(0)), vec![1, 2, 3]);
}

#[test]
fn shape_of_a_matrix() {
    let a = Matrix::<i32, N2, N3>::from(vec![1, 2, 3, 5, 6, 7]);
    assert_eq!((a.height(), a.width()), (2, 3));
    assert_eq!(Matrix::<i32, N2, N3>::to_row_major(1, 2), 5);
    assert_eq!(Matrix::<i32, N2, N3>::new(), Matrix::from(vec![0, 0, 0, 0, 0, 0]));
    assert_eq!(Matrix::<i32, N2, N3>::new_uninitialized().data.len(), 0);
    let mut b = a.copied();
    b.set((1, 0), 9);
    assert_eq!(b, Matrix::from(vec![1, 2, 3, 9, 6, 7]));
    assert_eq!(a.transpose(), Matrix::<i32, N3, N2>::from(vec![1, 5, 2, 6, 3, 7]));
    assert_eq!(Matrix::<i32, N1, N1>::from(vec![7]).as_scalar(), 7);
    assert_eq!(Matrix::<i32, N2, N2>::from(vec![1, -2, -3, 4]).abs(), Matrix::from(vec![1, 2, 3, 4]));
}

#[test]
fn removing_what_is_not_there_keeps_all() {
    let a = Matrix::<i32, N2, N3>::from(vec![1, 2, 3, 5, 6, 7]);
    assert_eq!(a.remove_row(2).data, vec![1, 2, 3, 5, 6, 7]);
    assert_eq!(a.remove_col(3).data, vec![1, 2, 3, 5, 6, 7]);
    assert_eq!(a.remove_row(1).data, vec![1, 2, 3]);
    assert_eq!(a.remove_col(0).data, vec![2, 3, 6, 7]);
}

#[test]
fn operators_on_references() {
    let a = Matrix::<i32, N2, N2>::from(vec![1, 2, 3, 4]);
    let b = Matrix::<i32, N2, N2>::from(vec![5, 6, 7, 8]);
    let sum = Matrix::<i32, N2, N2>::from(vec![6, 8, 10, 12]);
    let product = Matrix::<i32, N2, N2>::from(vec![19, 22, 43, 50]);
    assert_eq!(&a + &b, sum);
    assert_eq!(&a + b.clone(), sum);
    assert_eq!(a.clone() + &b, sum);
    assert_eq!(&b - &a, Matrix::from(vec![4, 4, 4, 4]));
    assert_eq!(&b - a.clone(), Matrix::from(vec![4, 4, 4, 4]));
    assert_eq!(b.clone() - &a, Matrix::from(vec![4, 4, 4, 4]));
    assert_eq!(&a * &b, product);
    assert_eq!(&a * b.clone(), product);
    assert_eq!(a.clone() * &b, product);
    assert_eq!(-&a, Matrix::from(vec![-1, -2, -3, -4]));
    assert_eq!(&a * 2, Matrix::from(vec![2, 4, 6, 8]));
    assert_eq!(&b / 2, Matrix::from(vec![2, 3, 3, 4]));
    let mut c = a.clone();
    c.add_assign_ref(&b);
    assert_eq!(c, sum);
}

#[test]
fn matrix_as_text_lines_up_its_columns() {
    let a = Matrix::<i32, N2, N3>::from(vec![1, -20, 3, 5, 6, 700]);
    assert_eq!(a.to_text(), "Matrix 2x3\n    | 1   -20   3   |\n    | 5    6    700 |\n");
    let b = Matrix::<f64, N2, N2>::from(vec![-0.0, 1.5, -2.25, 0.0]);
    assert_eq!(b.to_text(), "Matrix 2x2\n    | 0.0   1.5  |\n    |-2.25  0.0  |\n");
}
