use zeta::value::{Failure, Success, Transform, ZetaObject};

#[derive(Clone, Copy, Debug, PartialEq)]
struct FailT;

impl Transform for FailT {
    fn apply(&self, _operand: &mut ZetaObject<Self>) -> ZetaObject<Self> {
        ZetaObject::Null
    }
}

#[derive(Clone, Copy, Debug, PartialEq)]
struct SetThreeT;

impl Transform for SetThreeT {
    fn apply(&self, operand: &mut ZetaObject<Self>) -> ZetaObject<Self> {
        *operand = ZetaObject::from_int(3);
        Success()
    }
}

/// Succeeds once the operand has been consumed: a non-null operand is
/// overwritten with null and the step fails; a null operand succeeds.
#[derive(Clone, Copy, Debug, PartialEq)]
struct ConsumeT;

impl Transform for ConsumeT {
    fn apply(&self, operand: &mut ZetaObject<Self>) -> ZetaObject<Self> {
        if operand.is_null() {
            Success()
        } else {
            *operand = ZetaObject::Null;
            ZetaObject::Null
        }
    }
}

#[test]
fn success_operator_halts_at_once() {
    let mut arg = ZetaObject::<FailT>::from_int(5);
    let r = Success::<FailT>().evaluate(&mut arg);
    assert_eq!(r.failures, 0);
    assert_eq!(r.successes, 0);
    assert_eq!(r.result, Success::<FailT>());
    assert_eq!(r.operand, ZetaObject::<FailT>::from_int(5));
    assert_eq!(arg, ZetaObject::<FailT>::from_int(5));
}

#[test]
fn failing_transform_row() {
    let grid = ZetaObject::Matrix(vec![vec![Box::new(ZetaObject::Function(
        FailT,
        "fail".to_string(),
    ))]]);
    let mut arg = ZetaObject::<FailT>::from_int(1);
    let r = grid.evaluate(&mut arg);
    assert_eq!(r.failures, 1);
    assert_eq!(r.successes, 0);
    assert!(r.result.is_null());
}

#[test]
fn staircase_cursor_never_resets() {
    // row 0: [null, null]; row 1: [success-grid, null]
    // (0,0) fails -> (1,0) succeeds -> (1,1) fails -> row bound reached
    let grid: ZetaObject<FailT> = ZetaObject::Matrix(vec![
        vec![Box::new(ZetaObject::Null), Box::new(ZetaObject::Null)],
        vec![Box::new(Success()), Box::new(ZetaObject::Null)],
    ]);
    let mut arg = ZetaObject::<FailT>::from_int(0);
    let r = grid.evaluate(&mut arg);
    assert_eq!(r.failures, 2);
    assert_eq!(r.successes, 1);
    assert!(r.result.is_null());
}

#[test]
fn transform_mutates_operand_in_place() {
    let grid = ZetaObject::Matrix(vec![vec![Box::new(ZetaObject::Function(
        SetThreeT,
        "set three".to_string(),
    ))]]);
    let mut arg = ZetaObject::<SetThreeT>::from_int(0);
    let r = grid.evaluate(&mut arg);
    assert_eq!(r.failures, 0);
    assert_eq!(r.successes, 1);
    assert_eq!(r.result, Success::<SetThreeT>());
    assert_eq!(arg.to_int(), 3);
    assert_eq!(r.operand.to_int(), 3);
}

#[test]
fn non_grid_operator_short_circuits() {
    let mut arg = ZetaObject::<FailT>::from_int(4);
    let r = Failure::<FailT>().evaluate(&mut arg);
    assert_eq!(r.failures, 0);
    assert_eq!(r.successes, 0);
    assert!(r.result.is_null());
    assert!(r.operator.is_null());
    assert!(r.operand.is_null());
    assert_eq!(arg, ZetaObject::<FailT>::from_int(4));
}

#[test]
fn fresh_operands_evaluate_deterministically() {
    let op = ZetaObject::Matrix(vec![vec![Box::new(ZetaObject::Function(
        ConsumeT,
        "consume".to_string(),
    ))]]);
    let mut arg1 = ZetaObject::<ConsumeT>::from_int(1);
    let r1 = op.deep_copy().evaluate(&mut arg1);
    let mut arg2 = ZetaObject::<ConsumeT>::from_int(1);
    let r2 = op.deep_copy().evaluate(&mut arg2);
    assert_eq!(r1, r2);
    assert_eq!(r1.failures, 1);
    assert_eq!(r1.successes, 0);
}

#[test]
fn mutated_operand_handle_may_evaluate_differently() {
    let op = ZetaObject::Matrix(vec![vec![Box::new(ZetaObject::Function(
        ConsumeT,
        "consume".to_string(),
    ))]]);
    let mut arg = ZetaObject::<ConsumeT>::from_int(1);
    let r1 = op.deep_copy().evaluate(&mut arg);
    // the first pass overwrote the operand with null, so the second pass
    // through the same handle succeeds instead: expected, not a defect
    let r2 = op.evaluate(&mut arg);
    assert_eq!(r1.failures, 1);
    assert_eq!(r1.successes, 0);
    assert_eq!(r2.failures, 0);
    assert_eq!(r2.successes, 1);
    assert_ne!(r1, r2);
}
