use pydantic_validators::errors::{ErrorType, LocItem, ValLineError};

#[test]
fn outer_location_goes_first() {
    let e = ValLineError::new_with_loc(ErrorType::Missing, LocItem::S("a".to_string()));
    let e = e.with_outer_location(LocItem::I(3));
    assert_eq!(e.loc.len(), 2);
    assert!(matches!(e.loc[0], LocItem::I(3)));
    assert!(matches!(&e.loc[1], LocItem::S(s) if s == "a"));
}

use pydantic_validators::errors::{prefix_errors, ValError};

#[test]
fn prefix_errors_puts_outer_in_front_of_each() {
    let es = vec![
        ValLineError::new(ErrorType::Missing),
        ValLineError::new_with_loc(ErrorType::IntType, LocItem::I(1)),
    ];
    let out = prefix_errors(es, &LocItem::S("x".to_string()));
    assert_eq!(out.len(), 2);
    assert_eq!(out[0].loc.len(), 1);
    assert!(matches!(&out[0].loc[0], LocItem::S(s) if s == "x"));
    assert_eq!(out[1].loc.len(), 2);
    assert!(matches!(out[1].loc[1], LocItem::I(1)));
    assert!(matches!(out[1].error_type, ErrorType::IntType));
}

#[test]
fn val_error_outer_location_leaves_other_errors() {
    let e = ValError::LineErrors(vec![ValLineError::new(ErrorType::Missing)]);
    match e.with_outer_location(LocItem::I(0)) {
        ValError::LineErrors(es) => {
            assert_eq!(es.len(), 1);
            assert!(matches!(es[0].loc[0], LocItem::I(0)));
        }
        other => panic!("unexpected {:?}", other),
    }
    assert!(matches!(ValError::Omit.with_outer_location(LocItem::I(0)), ValError::Omit));
    assert!(matches!(ValError::Internal("boom".to_string()).with_outer_location(LocItem::I(0)), ValError::Internal(m) if m == "boom"));
}

#[test]
fn with_type_keeps_location() {
    let e = ValLineError::new_with_loc(ErrorType::DictType, LocItem::S("a".to_string()));
    let e = e.with_type(ErrorType::ExtraForbidden);
    assert!(matches!(e.error_type, ErrorType::ExtraForbidden));
    assert!(matches!(&e.loc[0], LocItem::S(s) if s == "a"));
    let d = LocItem::I(7).duplicate();
    assert!(matches!(d, LocItem::I(7)));
}
