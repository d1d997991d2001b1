use zeta::algebra::{horizontal_union, vertical_union};
use zeta::value::{Failure, Transform, ZetaObject};

#[derive(Clone, Copy, Debug, PartialEq)]
struct NopT;

impl Transform for NopT {
    fn apply(&self, _operand: &mut ZetaObject<Self>) -> ZetaObject<Self> {
        ZetaObject::Null
    }
}

fn enc(n: isize) -> ZetaObject<NopT> {
    ZetaObject::from_int(n)
}

fn rows_of(v: &ZetaObject<NopT>) -> &Vec<Vec<Box<ZetaObject<NopT>>>> {
    match v {
        ZetaObject::Matrix(m) => m,
        _ => panic!("expected a grid"),
    }
}

#[test]
fn vertical_union_of_encodings_stacks_rows() {
    let v = vertical_union(enc(2), enc(3));
    let m = rows_of(&v);
    assert_eq!(m.len(), 5);
    for row in m {
        assert_eq!(row.len(), 1);
        assert!(row[0].is_null());
    }
    assert_eq!(v.to_int(), 5);
}

#[test]
fn vertical_union_pads_narrower_rows() {
    let narrow: ZetaObject<NopT> = ZetaObject::Matrix(vec![vec![Box::new(ZetaObject::Null)]]);
    let wide: ZetaObject<NopT> = ZetaObject::Matrix(vec![vec![
        Box::new(ZetaObject::Null),
        Box::new(ZetaObject::Null),
    ]]);
    let v = vertical_union(narrow, wide);
    let m = rows_of(&v);
    assert_eq!(m.len(), 2);
    for row in m {
        assert_eq!(row.len(), 2);
        assert!(row[0].is_null());
        assert!(row[1].is_null());
    }
}

#[test]
fn vertical_union_wraps_non_grid_operand() {
    let v = vertical_union(Failure::<NopT>(), enc(1));
    let m = rows_of(&v);
    assert_eq!(m.len(), 2);
    assert_eq!(v.to_int(), 2);
}

#[test]
fn horizontal_union_pads_shorter_grid_with_synthetic_rows() {
    let v = horizontal_union(enc(2), enc(3));
    let m = rows_of(&v);
    assert_eq!(m.len(), 3);
    for row in m {
        assert_eq!(row.len(), 2);
        assert!(row[0].is_null());
        assert!(row[1].is_null());
    }
}

#[test]
fn horizontal_union_row_count_is_max_and_width_is_sum() {
    let two_by_two: ZetaObject<NopT> = ZetaObject::Matrix(vec![
        vec![Box::new(ZetaObject::Null), Box::new(ZetaObject::Null)],
        vec![Box::new(ZetaObject::Null), Box::new(ZetaObject::Null)],
    ]);
    let v = horizontal_union(two_by_two, enc(3));
    let m = rows_of(&v);
    assert_eq!(m.len(), 3);
    for row in m {
        assert_eq!(row.len(), 3);
    }
    // the synthetic third row is all padding on the left side
    assert!(m[2][0].is_null());
    assert!(m[2][1].is_null());
    assert!(m[2][2].is_null());
}

#[test]
fn horizontal_union_falls_back_to_vertical_for_non_grid() {
    // the documented fallback: a non-grid operand is wrapped and stacked,
    // not joined column-wise
    let v = horizontal_union(enc(2), Failure::<NopT>());
    let m = rows_of(&v);
    assert_eq!(m.len(), 3);
    assert_eq!(v.to_int(), 3);
}
