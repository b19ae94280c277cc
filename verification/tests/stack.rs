use font_tables::error::FontError;
use font_tables::model::charstring::{Operator, STACK_CAPACITY};
use font_tables::tables::cff::EvaluationStack;

#[test]
fn new_stack_is_empty() {
    let stack = EvaluationStack::new();
    assert_eq!(stack.len(), 0);
}

#[test]
fn push_puts_operands_in_order() {
    let mut stack = EvaluationStack::new();
    assert_eq!(stack.push(5), Ok(()));
    assert_eq!(stack.push(-7), Ok(()));
    assert_eq!(stack.push(i32::MAX), Ok(()));
    assert_eq!(stack.len(), 3);
    assert_eq!(stack.get(0), 5);
    assert_eq!(stack.get(1), -7);
    assert_eq!(stack.get(2), i32::MAX);
}

#[test]
fn push_beyond_capacity_is_an_error_and_changes_nothing() {
    assert_eq!(STACK_CAPACITY, 48);
    let mut stack = EvaluationStack::new();
    for i in 0..48 {
        assert_eq!(stack.push(i), Ok(()));
    }
    assert_eq!(stack.len(), 48);
    assert_eq!(stack.push(99), Err(FontError::CffStackOverflow));
    assert_eq!(stack.push(100), Err(FontError::CffStackOverflow));
    assert_eq!(stack.len(), 48);
    for i in 0..48 {
        assert_eq!(stack.get(i), i as i32);
    }
}

#[test]
fn clear_empties_the_stack() {
    let mut stack = EvaluationStack::new();
    for i in 0..48 {
        assert_eq!(stack.push(i), Ok(()));
    }
    stack.clear();
    assert_eq!(stack.len(), 0);
    assert_eq!(stack.push(3), Ok(()));
    assert_eq!(stack.len(), 1);
    assert_eq!(stack.get(0), 3);
    stack.clear();
    stack.clear();
    assert_eq!(stack.len(), 0);
}

#[test]
fn operators_by_byte() {
    let named = [
        (1u8, Operator::HStem),
        (3, Operator::VStem),
        (4, Operator::VMoveTo),
        (5, Operator::RLineTo),
        (6, Operator::HLineTo),
        (7, Operator::VLineTo),
        (8, Operator::RRCurveTo),
        (14, Operator::EndChar),
        (18, Operator::HStemHm),
        (19, Operator::HintMask),
        (20, Operator::CntrMask),
        (21, Operator::RMoveTo),
        (22, Operator::HMoveTo),
        (23, Operator::VStemHm),
        (24, Operator::RCurveLine),
        (25, Operator::RLineCurve),
        (26, Operator::VVCurveTo),
        (27, Operator::HHCurveTo),
        (30, Operator::VHCurveTo),
        (31, Operator::HVCurveTo),
    ];
    for b0 in 0..=255u8 {
        let expected = named
            .iter()
            .find(|(byte, _)| *byte == b0)
            .map(|(_, op)| *op)
            .unwrap_or(Operator::Unimplemented);
        assert_eq!(Operator::from_byte(b0), expected);
    }
}
