use zeta::codec::{add, div, mul, sub};
use zeta::value::{Failure, Success, Transform, ZetaObject};

#[derive(Clone, Copy, Debug, PartialEq)]
struct NopT;

impl Transform for NopT {
    fn apply(&self, _operand: &mut ZetaObject<Self>) -> ZetaObject<Self> {
        ZetaObject::Null
    }
}

fn enc(n: isize) -> ZetaObject<NopT> {
    ZetaObject::from_int(n)
}

#[test]
fn round_trip_representative_range() {
    for n in [-100isize, -9, -3, -1, 0, 1, 2, 7, 100] {
        assert_eq!(ZetaObject::<NopT>::from_int(n).to_int(), n);
    }
}

#[test]
fn encoding_shape_positive() {
    let v = enc(2);
    match &v {
        ZetaObject::Matrix(m) => {
            assert_eq!(m.len(), 2);
            for row in m {
                assert_eq!(row.len(), 1);
                assert!(row[0].is_null());
            }
        }
        _ => panic!("expected a grid"),
    }
}

#[test]
fn encoding_shape_negative_has_sign_row() {
    let w = enc(-2);
    match &w {
        ZetaObject::Matrix(m) => {
            assert_eq!(m.len(), 3);
            assert!(m[0][0].is_null());
            assert!(m[1][0].is_null());
            assert!(m[2][0].is_matrix());
            assert!(m[2][0].is_empty());
        }
        _ => panic!("expected a grid"),
    }
}

#[test]
fn encoding_of_zero_is_rowless_grid() {
    let z = enc(0);
    match &z {
        ZetaObject::Matrix(m) => assert_eq!(m.len(), 0),
        _ => panic!("expected a grid"),
    }
    assert!(z.is_empty());
}

#[test]
fn add_consistency() {
    assert_eq!(add(enc(2), enc(3)).to_int(), 5);
    assert_eq!(add(enc(-4), enc(3)).to_int(), -1);
    assert_eq!(add(enc(0), enc(0)).to_int(), 0);
}

#[test]
fn sub_consistency() {
    assert_eq!(sub(enc(2), enc(3)).to_int(), -1);
    assert_eq!(sub(enc(-4), enc(-6)).to_int(), 2);
}

#[test]
fn mul_consistency() {
    assert_eq!(mul(enc(-3), enc(4)).to_int(), -12);
    assert_eq!(mul(enc(-3), enc(-4)).to_int(), 12);
    assert_eq!(mul(enc(5), enc(0)).to_int(), 0);
}

#[test]
fn div_truncates_toward_zero() {
    assert_eq!(div(enc(7), enc(2)).to_int(), 3);
    assert_eq!(div(enc(-7), enc(2)).to_int(), -3);
    assert_eq!(div(enc(7), enc(-2)).to_int(), -3);
    assert_eq!(div(enc(-7), enc(-2)).to_int(), 3);
}

#[test]
fn div_by_empty_sentinel_is_failure_value() {
    let r = div(enc(5), enc(0));
    assert!(r.is_null());
    // the one-row zero-width success grid is empty-grid-shaped too
    let r2 = div(enc(5), Success());
    assert!(r2.is_null());
}

#[test]
fn is_empty_distinguishes_shapes() {
    assert!(Success::<NopT>().is_empty());
    assert!(enc(0).is_empty());
    assert!(!enc(1).is_empty());
    assert!(!Failure::<NopT>().is_empty());
    let all_empty_rows: ZetaObject<NopT> = ZetaObject::Matrix(vec![vec![], vec![]]);
    assert!(all_empty_rows.is_empty());
    let one_cell_row: ZetaObject<NopT> =
        ZetaObject::Matrix(vec![vec![], vec![Box::new(ZetaObject::Null)]]);
    assert!(!one_cell_row.is_empty());
}

#[test]
fn deep_copy_is_equal() {
    let v = enc(-3);
    let c = v.deep_copy();
    assert_eq!(c, v);
}
