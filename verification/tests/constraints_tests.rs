use pydantic_validators::constraints::{is_multiple, root_error, Constraint, ConstraintSubject};
use pydantic_validators::errors::{ErrorType, ValError};
use pydantic_validators::int_validator::{BuiltIntValidator, IntInput, IntSchema, IntValidator};

fn subject(len: usize, value: i64) -> ConstraintSubject {
    ConstraintSubject { len, value, pattern_matches: true, predicate_holds: true }
}

fn only_error(r: Result<(), ValError>) -> ErrorType {
    match r {
        Err(ValError::LineErrors(mut es)) => {
            assert_eq!(es.len(), 1);
            assert!(es[0].loc.is_empty());
            es.remove(0).error_type
        }
        other => panic!("unexpected {:?}", other),
    }
}

#[test]
fn constraint_build_reads_kinds() {
    assert!(matches!(Constraint::build("min-length", 3, 0, ""), Ok(Constraint::MinLength(3))));
    assert!(matches!(Constraint::build("le", 0, -4, ""), Ok(Constraint::LessThanOrEqual(-4))));
    assert!(matches!(Constraint::build("pattern", 0, 0, "^a"), Ok(Constraint::Pattern { original_pattern }) if original_pattern == "^a"));
    assert!(Constraint::build("bogus", 0, 0, "").is_err());
    assert_eq!(Constraint::MultipleOf(3).get_name(), "multiple_of");
    assert_eq!(Constraint::Unknown { error: ErrorType::Never }.get_name(), "constraint");
}

#[test]
fn constraint_validate_bounds() {
    assert!(Constraint::MinLength(2).validate(&subject(2, 0)).is_ok());
    assert!(matches!(only_error(Constraint::MinLength(2).validate(&subject(1, 0))), ErrorType::TooShort { field_type: None, min_length: 2, actual_length: 1 }));
    assert!(matches!(only_error(Constraint::MaxLength(2).validate(&subject(3, 0))), ErrorType::TooLong { max_length: 2, actual_length: 3, .. }));
    assert!(matches!(only_error(Constraint::GreaterThan(5).validate(&subject(0, 5))), ErrorType::GreaterThan { gt: 5 }));
    assert!(Constraint::GreaterThanOrEqual(5).validate(&subject(0, 5)).is_ok());
    assert!(matches!(only_error(Constraint::LessThan(5).validate(&subject(0, 5))), ErrorType::LessThan { lt: 5 }));
    assert!(Constraint::LessThanOrEqual(5).validate(&subject(0, 5)).is_ok());
    assert!(matches!(only_error(Constraint::MultipleOf(3).validate(&subject(0, 7))), ErrorType::MultipleOf { multiple_of: 3 }));
    assert!(Constraint::MultipleOf(-3).validate(&subject(0, -9)).is_ok());
    assert!(matches!(Constraint::MultipleOf(0).validate(&subject(0, 4)), Err(ValError::Internal(m)) if m == "integer modulo by zero"));
    let mut s = subject(0, 0);
    s.predicate_holds = false;
    let custom = Constraint::Unknown { error: ErrorType::LiteralError { expected: "x".to_string() } };
    assert!(matches!(only_error(custom.validate(&s)), ErrorType::LiteralError { expected } if expected == "x"));
    assert!(custom.validate(&subject(0, 0)).is_ok());
    s.pattern_matches = false;
    assert!(matches!(only_error(Constraint::Pattern { original_pattern: "x".to_string() }.validate(&s)), ErrorType::StringPatternMismatch { pattern } if pattern == "x"));
}

#[test]
fn multiples_by_magnitude() {
    assert!(is_multiple(12, 4));
    assert!(is_multiple(-12, 4));
    assert!(is_multiple(i64::MIN, -1));
    assert!(is_multiple(0, 7));
    assert!(!is_multiple(13, -4));
    assert!(matches!(root_error(ErrorType::Never), ValError::LineErrors(es) if es.len() == 1));
}

#[test]
fn int_validator_strictness() {
    let plain = match IntValidator::build(IntSchema { strict: false, multiple_of: None, le: None, lt: None, ge: None, gt: None }) {
        BuiltIntValidator::Int(v) => v,
        other => panic!("unexpected {:?}", other),
    };
    assert_eq!(plain.validate(IntInput::Int { value: 3, lax: true }, None).unwrap(), (3, true));
    assert!(plain.validate(IntInput::Int { value: 3, lax: true }, Some(true)).is_err());
    assert!(matches!(plain.validate(IntInput::NotInt, None), Err(ValError::LineErrors(es)) if matches!(es[0].error_type, ErrorType::IntType)));
    assert!(matches!(plain.validate(IntInput::Invalid(ValError::Omit), None), Err(ValError::Omit)));
    assert!(plain.different_strict_behavior(false));
    assert!(!plain.different_strict_behavior(true));
}

#[test]
fn constrained_int_checks_in_order() {
    let v = match IntValidator::build(IntSchema { strict: true, multiple_of: Some(5), le: Some(20), lt: None, ge: Some(10), gt: None }) {
        BuiltIntValidator::Constrained(v) => v,
        other => panic!("unexpected {:?}", other),
    };
    assert_eq!(v.validate(IntInput::Int { value: 15, lax: false }, None).unwrap(), (15, false));
    assert!(matches!(v.validate(IntInput::Int { value: 7, lax: false }, None), Err(ValError::LineErrors(es)) if matches!(es[0].error_type, ErrorType::MultipleOf { multiple_of: 5 })));
    assert!(matches!(v.validate(IntInput::Int { value: 25, lax: false }, None), Err(ValError::LineErrors(es)) if matches!(es[0].error_type, ErrorType::LessThanEqual { le: 20 })));
    assert!(matches!(v.validate(IntInput::Int { value: 5, lax: false }, None), Err(ValError::LineErrors(es)) if matches!(es[0].error_type, ErrorType::GreaterThanEqual { ge: 10 })));
    assert!(v.validate(IntInput::Int { value: 15, lax: true }, None).is_err());
    assert!(v.validate(IntInput::Int { value: 15, lax: true }, Some(false)).is_ok());
}
