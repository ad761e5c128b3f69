use tracer::{Fx, Matrix};

fn fxi(i: i64) -> Fx {
    Fx::from_int(i)
}

fn row(vals: &[i64]) -> Vec<Fx> {
    vals.iter().map(|v| fxi(*v)).collect()
}

#[test]
fn create_matrix() {
    let m = Matrix::new(vec![
        row(&[1, 2, 3, 4]),
        row(&[-1, -2, -3, -4]),
        row(&[0, 0, 0, 0]),
        row(&[1, 1, -1, -1]),
    ])
    .unwrap();
    assert_eq!(m.cells[0], row(&[1, 2, 3, 4]));
}

#[test]
fn indexing_matrix() {
    let m = Matrix::new(vec![row(&[-3, 5, 0]), row(&[1, -2, -7]), row(&[0, 1, 1])]).unwrap();
    assert_eq!(m.cells[1][2], fxi(-7));
}

#[test]
fn matrix_equality() {
    let m1 = Matrix::new(vec![row(&[-3, 5, 0]), row(&[1, -2, -7]), row(&[0, 1, 1])]).unwrap();
    let m2 = Matrix::new(vec![row(&[-3, 5, 0]), row(&[1, -2, -7]), row(&[0, 1, 1])]).unwrap();
    let m3 = Matrix::new(vec![row(&[-3, 5, 0]), row(&[1, -2, -7]), row(&[0, 1, 2])]).unwrap();
    assert!(m1.equals(&m2));
    assert!(!m1.equals(&m3));
}

#[test]
fn matrix_multiplication() {
    let a = Matrix::new(vec![
        row(&[1, 2, 3, 4]),
        row(&[5, 6, 7, 8]),
        row(&[9, 8, 7, 6]),
        row(&[5, 4, 3, 2]),
    ])
    .unwrap();
    let b = Matrix::new(vec![
        row(&[-2, 1, 2, 3]),
        row(&[3, 2, 1, -1]),
        row(&[4, 3, 6, 5]),
        row(&[1, 2, 7, 8]),
    ])
    .unwrap();
    let c = Matrix::new(vec![
        row(&[20, 22, 50, 48]),
        row(&[44, 54, 114, 108]),
        row(&[40, 58, 110, 102]),
        row(&[16, 26, 46, 42]),
    ])
    .unwrap();
    assert!(c.equals(&a.mul_matrix(&b)));
}

#[test]
fn multiply_with_vector() {
    let a = Matrix::new(vec![
        row(&[1, 2, 3, 4]),
        row(&[2, 4, 4, 2]),
        row(&[8, 6, 4, 1]),
        row(&[0, 0, 0, 1]),
    ])
    .unwrap();
    let col = Matrix::column_matrix(row(&[1, 2, 3, 1]));
    let out = a.mul_matrix(&col).get_tuple();
    assert_eq!(out, row(&[18, 24, 33, 1]));
}

#[test]
fn identity_matrix() {
    let a = Matrix::new(vec![
        row(&[1, 2, 3, 4]),
        row(&[2, 4, 4, 2]),
        row(&[8, 6, 4, 1]),
        row(&[0, 0, 0, 1]),
    ])
    .unwrap();
    let i = Matrix::identity_matrix(4);
    assert!(i.mul_matrix(&a).equals(&a));
}

#[test]
fn matrix_transpose() {
    let a = Matrix::new(vec![
        row(&[0, 9, 3, 0]),
        row(&[9, 8, 0, 8]),
        row(&[1, 8, 5, 3]),
        row(&[0, 0, 5, 8]),
    ])
    .unwrap();
    let b = Matrix::new(vec![
        row(&[0, 9, 1, 0]),
        row(&[9, 8, 8, 0]),
        row(&[3, 0, 5, 5]),
        row(&[0, 8, 3, 8]),
    ])
    .unwrap();
    assert!(a.transpose().equals(&b));
}

#[test]
fn det_2x2() {
    let a = Matrix::new(vec![row(&[1, 5]), row(&[-3, 2])]).unwrap();
    assert!(a.determinant().equals(fxi(17)));
}

#[test]
fn sub_matrix() {
    let a = Matrix::new(vec![
        row(&[0, 9, 3, 0]),
        row(&[9, 8, 0, 8]),
        row(&[1, 8, 5, 3]),
        row(&[0, 0, 5, 8]),
    ])
    .unwrap();
    let b = Matrix::new(vec![row(&[0, 9, 3]), row(&[9, 8, 0]), row(&[1, 8, 5])]).unwrap();
    assert!(a.sub_matrix(3, 3).equals(&b));
}

#[test]
fn minor() {
    let a = Matrix::new(vec![row(&[3, 5, 0]), row(&[2, -1, -7]), row(&[6, -1, 5])]).unwrap();
    assert!(a.minor(1, 0).equals(fxi(25)));
}

#[test]
fn cofactor() {
    let a = Matrix::new(vec![row(&[3, 5, 0]), row(&[2, -1, -7]), row(&[6, -1, 5])]).unwrap();
    assert!(a.cofactor(1, 0).equals(fxi(-25)));
}

#[test]
fn determinant_large() {
    let a = Matrix::new(vec![
        row(&[-2, -8, 3, 5]),
        row(&[-3, 1, 7, 3]),
        row(&[1, 2, -9, 6]),
        row(&[-6, 7, 7, -9]),
    ])
    .unwrap();
    assert!(a.determinant().equals(fxi(-4071)));
}

#[test]
fn matrix_inverse() {
    let a = Matrix::new(vec![
        row(&[0, 2, 3, 4]),
        row(&[5, 6, 7, 8]),
        row(&[9, 8, 8, 6]),
        row(&[5, 4, 3, 2]),
    ])
    .unwrap();
    let b = Matrix::new(vec![
        row(&[-2, 1, 2, 3]),
        row(&[3, 2, 1, -1]),
        row(&[4, 3, 6, 5]),
        row(&[1, 2, 7, 8]),
    ])
    .unwrap();
    let c = a.mul_matrix(&b);
    assert!(c.mul_matrix(&b.inverse_matrix().unwrap()).equals(&a));
    let ai = a.inverse_matrix().unwrap();
    assert!(a.mul_matrix(&ai).equals(&Matrix::identity_matrix(4)));
}

#[test]
fn singular_matrix_is_rejected() {
    let a = Matrix::new(vec![row(&[1, 2]), row(&[2, 4])]).unwrap();
    assert_eq!(a.inverse_matrix().unwrap_err(), tracer::TracerError::SingularMatrix);
}

#[test]
fn non_rectangular_matrix_is_rejected() {
    let r = Matrix::new(vec![row(&[1, 2]), row(&[1])]);
    assert_eq!(r.unwrap_err(), tracer::TracerError::InvalidArgument);
}
