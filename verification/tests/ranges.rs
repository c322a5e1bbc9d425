use cddl_parsing::ast::{RangeCtlOp, Type, Type1, Type2};
use cddl_parsing::parsing::{parse_range_operator, type2_to_number_literal};
use cddl_parsing::support::range_is_supported;

fn uint(value: usize) -> Type2 {
    Type2::UintValue { value }
}

fn sint(value: isize) -> Type2 {
    Type2::IntValue { value }
}

fn control(ctrl: &str, operand: Type2) -> (RangeCtlOp, Type2) {
    (RangeCtlOp::CtlOp { ctrl: String::from(ctrl) }, operand)
}

fn parenthesized(type2: Type2, operator: Option<(RangeCtlOp, Type2)>) -> Type2 {
    Type2::ParenthesizedType { pt: Type { type_choices: vec![Type1 { type2, operator }] } }
}

fn range(is_inclusive: bool, upper: Type2) -> Option<(RangeCtlOp, Type2)> {
    Some((RangeCtlOp::RangeOp { is_inclusive }, upper))
}

fn bounds(ctrl: &str, operand: Type2) -> (Option<isize>, Option<isize>) {
    let range = control(ctrl, operand);
    assert!(range_is_supported(&range));
    parse_range_operator(&range)
}

#[test]
fn number_literals() {
    assert_eq!(type2_to_number_literal(&uint(12)), 12);
    assert_eq!(type2_to_number_literal(&sint(-12)), -12);
    assert_eq!(type2_to_number_literal(&uint(isize::MAX as usize)), isize::MAX);
    assert_eq!(type2_to_number_literal(&uint(isize::MAX as usize + 1)), isize::MIN);
    assert_eq!(type2_to_number_literal(&uint(usize::MAX)), -1);
}

#[test]
fn comparisons() {
    assert_eq!(bounds(".eq", uint(5)), (Some(5), Some(5)));
    assert_eq!(bounds(".ne", uint(5)), (Some(6), Some(4)));
    assert_eq!(bounds(".le", sint(-5)), (None, Some(-5)));
    assert_eq!(bounds(".lt", uint(5)), (None, Some(4)));
    assert_eq!(bounds(".ge", uint(5)), (Some(5), None));
    assert_eq!(bounds(".gt", sint(-1)), (Some(0), None));
}

#[test]
fn bounds_admit_what_compares() {
    let admits = |b: (Option<isize>, Option<isize>), v: isize| {
        b.0.map_or(true, |min| min <= v) && b.1.map_or(true, |max| v <= max)
    };
    for v in -3..10 {
        assert_eq!(admits(bounds(".eq", uint(4)), v), v == 4);
        assert_eq!(admits(bounds(".le", uint(4)), v), v <= 4);
        assert_eq!(admits(bounds(".lt", uint(4)), v), v < 4);
        assert_eq!(admits(bounds(".ge", uint(4)), v), v >= 4);
        assert_eq!(admits(bounds(".gt", uint(4)), v), v > 4);
        let size = parenthesized(uint(2), range(true, uint(6)));
        assert_eq!(admits(bounds(".size", size), v), 2 <= v && v <= 6);
        assert!(!admits(bounds(".ne", uint(4)), v));
    }
}

#[test]
fn sizes() {
    assert_eq!(bounds(".size", uint(32)), (Some(32), Some(32)));
    assert_eq!(bounds(".size", sint(-1)), (Some(-1), Some(-1)));
    assert_eq!(bounds(".size", parenthesized(uint(3), None)), (Some(3), Some(3)));
    let inclusive = parenthesized(uint(0), range(true, uint(64)));
    assert_eq!(bounds(".size", inclusive), (Some(0), Some(64)));
    let exclusive = parenthesized(sint(0), range(false, sint(64)));
    assert_eq!(bounds(".size", exclusive), (Some(0), Some(65)));
}

#[test]
fn operators_without_bounds() {
    for ctrl in vec![".default", ".cbor", ".cborseq", ".within", ".and", ".regexp", ".foo", ""] {
        assert!(!range_is_supported(&control(ctrl, uint(1))));
    }
    assert!(!range_is_supported(&(RangeCtlOp::RangeOp { is_inclusive: true }, uint(1))));
    assert!(!range_is_supported(&control(".eq", Type2::Any)));
    assert!(!range_is_supported(&control(".size", Type2::TextValue { value: String::new() })));
}

#[test]
fn bounds_at_the_limits() {
    assert!(!range_is_supported(&control(".gt", sint(isize::MAX))));
    assert!(!range_is_supported(&control(".lt", sint(isize::MIN))));
    assert!(!range_is_supported(&control(".ne", sint(isize::MIN))));
    assert!(!range_is_supported(&control(".ne", sint(isize::MAX))));
    assert_eq!(bounds(".le", sint(isize::MIN)), (None, Some(isize::MIN)));
    assert_eq!(bounds(".lt", sint(isize::MAX)), (None, Some(isize::MAX - 1)));
    let full = parenthesized(sint(0), range(false, sint(isize::MAX)));
    assert!(!range_is_supported(&control(".size", full)));
}

#[test]
fn sizes_without_bounds() {
    let none = Type2::ParenthesizedType { pt: Type { type_choices: vec![] } };
    assert!(!range_is_supported(&control(".size", none)));
    let text = parenthesized(Type2::TextValue { value: String::new() }, None);
    assert!(!range_is_supported(&control(".size", text)));
    let controlled = parenthesized(uint(1), Some(control(".le", uint(2))));
    assert!(!range_is_supported(&control(".size", controlled)));
    let upper = parenthesized(uint(1), range(true, Type2::Any));
    assert!(!range_is_supported(&control(".size", upper)));
}
