use pydantic_validators::errors::{ErrorType, LocItem, ValError, ValLineError};
use pydantic_validators::with_default::{
    AfterValidation, DefaultType, OnError, OptionErrorKind, ValidateDefaultFlag, ValidateDefaultInput, WithDefaultValidator,
};

fn line_err() -> ValError {
    ValError::LineErrors(vec![ValLineError::new(ErrorType::IntType)])
}

fn validator(on_error: Option<&str>) -> WithDefaultValidator {
    WithDefaultValidator::build(DefaultType::Default, on_error.map(|s| s.to_string()), "int", None, true).unwrap()
}

#[test]
fn default_type_from_schema() {
    assert_eq!(DefaultType::new(true, true, None).unwrap_err(), "'default' and 'default_factory' cannot be used together");
    assert_eq!(DefaultType::new(true, false, None).unwrap(), DefaultType::Default);
    assert_eq!(DefaultType::new(false, true, Some(true)).unwrap(), DefaultType::DefaultFactory { takes_data: true });
    assert_eq!(DefaultType::new(false, false, Some(true)).unwrap(), DefaultType::NoDefault);
}

#[test]
fn validate_default_flag_reads_options() {
    assert_eq!(ValidateDefaultFlag::extract(&ValidateDefaultInput::Bool(true)).unwrap(), ValidateDefaultFlag { init: true, definition: false });
    assert_eq!(ValidateDefaultFlag::extract(&ValidateDefaultInput::Str("definition".to_string())).unwrap(), ValidateDefaultFlag { init: false, definition: true });
    assert_eq!(ValidateDefaultFlag::extract(&ValidateDefaultInput::Str("never".to_string())).unwrap(), ValidateDefaultFlag { init: false, definition: false });
    let (k, m) = ValidateDefaultFlag::extract(&ValidateDefaultInput::Str("sometimes".to_string())).unwrap_err();
    assert_eq!(k, OptionErrorKind::ValueError);
    assert_eq!(m, "Invalid value for option `validate_default`, should be `'init'`, `'definition'`, `'never'` or a `bool`");
    assert_eq!(ValidateDefaultFlag::extract(&ValidateDefaultInput::Other).unwrap_err().0, OptionErrorKind::TypeError);
    assert_eq!(ValidateDefaultFlag::from_bool(false), ValidateDefaultFlag { init: false, definition: false });
}

#[test]
fn with_default_build() {
    let v = validator(Some("omit"));
    assert_eq!(v.name, "default[int]");
    assert_eq!(v.on_error, OnError::Omit);
    assert!(v.omit_on_error());
    assert!(v.has_default());
    assert!(!v.copy_default);
    let r = WithDefaultValidator::build(DefaultType::NoDefault, Some("default".to_string()), "int", None, true);
    assert_eq!(r.unwrap_err(), "'on_error = default' requires a `default` or `default_factory`");
    let v = WithDefaultValidator::build(DefaultType::Default, None, "x", Some(ValidateDefaultFlag { init: true, definition: true }), false).unwrap();
    assert!(v.copy_default);
    assert!(v.validates_on_build());
    assert!(v.validates_on_use());
    assert_eq!(v.on_error, OnError::Raise);
}

#[test]
fn after_validation_follows_on_error() {
    assert!(matches!(validator(None).after_validation(Ok(3)), AfterValidation::Done(Ok(3))));
    assert!(matches!(validator(None).after_validation::<i32>(Err(line_err())), AfterValidation::Done(Err(ValError::LineErrors(_)))));
    assert!(matches!(validator(Some("omit")).after_validation::<i32>(Err(line_err())), AfterValidation::Done(Err(ValError::Omit))));
    assert!(matches!(validator(Some("default")).after_validation::<i32>(Err(line_err())), AfterValidation::UseDefaultOr(ValError::LineErrors(_))));
    assert!(matches!(validator(None).after_validation::<i32>(Err(ValError::UseDefault)), AfterValidation::UseDefaultOr(ValError::UseDefault)));
}

#[test]
fn defaults_and_their_validation() {
    let v = validator(Some("default"));
    assert_eq!(v.default_or(Some(7), ValError::Omit).unwrap(), 7);
    assert!(matches!(v.default_or::<i32>(None, ValError::Omit), Err(ValError::Omit)));
    assert_eq!(v.validated_default(None, Ok(4)).unwrap(), Some(4));
    match v.validated_default::<i32>(Some(LocItem::S("f".to_string())), Err(line_err())) {
        Err(ValError::LineErrors(es)) => assert!(matches!(&es[0].loc[0], LocItem::S(s) if s == "f")),
        other => panic!("unexpected {:?}", other),
    }
}
