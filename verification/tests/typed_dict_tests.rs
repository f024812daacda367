use pydantic_validators::errors::{ErrorInput, ErrorType, LocItem, ValError, ValLineError};
use pydantic_validators::lookup::InputKey;
use pydantic_validators::plan::{OnLineErrors, Source, Step, Target};
use pydantic_validators::typed_dict::{TypedDictFieldSchema, TypedDictSchema, TypedDictValidator};

fn entry(name: &str, alias: Option<&str>, required: Option<bool>, has_default: bool) -> TypedDictFieldSchema {
    TypedDictFieldSchema {
        name: name.to_string(),
        validation_alias: alias.map(|a| a.to_string()),
        schema_error: None,
        required,
        has_default,
        omit_on_error: false,
    }
}

fn schema(fields: Vec<TypedDictFieldSchema>, extra: Option<&str>, total: Option<bool>) -> TypedDictSchema {
    TypedDictSchema {
        fields,
        strict: false,
        total,
        extra_behavior: extra.map(|e| e.to_string()),
        has_extras_schema: false,
        loc_by_alias: None,
        validate_by_alias: None,
        validate_by_name: None,
        cls_name: None,
    }
}

fn keys(ks: &[&str]) -> Vec<InputKey> {
    ks.iter().map(|k| InputKey::Str(k.to_string())).collect()
}

#[test]
fn typed_dict_build_errors() {
    let r = TypedDictValidator::build(schema(vec![entry("a", None, Some(true), true)], None, None));
    assert_eq!(r.unwrap_err(), "Field 'a': a required field cannot have a default value");
    let mut e = entry("b", None, None, false);
    e.omit_on_error = true;
    let r = TypedDictValidator::build(schema(vec![e], None, None));
    assert_eq!(r.unwrap_err(), "Field 'b': 'on_error = omit' cannot be set for required fields");
    let mut e = entry("b", None, None, false);
    e.omit_on_error = true;
    assert!(TypedDictValidator::build(schema(vec![e], None, Some(false))).is_ok());
    let v = TypedDictValidator::build(schema(vec![], None, None)).unwrap();
    assert_eq!(v.get_name(), "typed-dict");
}

#[test]
fn typed_dict_missing_required_entry() {
    let v = TypedDictValidator::build(schema(vec![entry("a", None, None, false), entry("b", None, Some(false), false)], None, None)).unwrap();
    let ks = keys(&[]);
    let steps = v.plan(&ks, false, None, None, false).unwrap();
    assert_eq!(steps.len(), 1);
    assert!(matches!(&steps[0], Step::Fail { error_type: ErrorType::Missing, loc: Some(LocItem::S(k)), .. } if k == "a"));
    assert!(v.validate::<i32>(&ks, false, None, None, false, vec![Ok(0)]).is_err());
}

#[test]
fn typed_dict_extra_behaviors() {
    let forbid = TypedDictValidator::build(schema(vec![entry("a", None, None, false)], Some("forbid"), None)).unwrap();
    let ks = keys(&["a", "x"]);
    let steps = forbid.plan(&ks, false, None, None, false).unwrap();
    assert!(matches!(&steps[1], Step::Fail { error_type: ErrorType::ExtraForbidden, loc: Some(LocItem::S(k)), .. } if k == "x"));
    match forbid.validate(&ks, false, None, None, false, vec![Ok::<i32, ValError>(1), Ok(2)]) {
        Err(ValError::LineErrors(es)) => {
            assert_eq!(es.len(), 1);
            assert!(matches!(es[0].error_type, ErrorType::ExtraForbidden));
            assert_eq!(es[0].input, ErrorInput::Keyword(1));
        }
        other => panic!("unexpected {:?}", other),
    }
    let allow = TypedDictValidator::build(schema(vec![entry("a", None, None, false)], Some("allow"), None)).unwrap();
    let out = allow.validate(&ks, false, None, None, false, vec![Ok::<i32, ValError>(1), Ok(2)]).unwrap();
    assert_eq!(out.dict, vec![("a".to_string(), 1), ("x".to_string(), 2)]);
    let ignore = TypedDictValidator::build(schema(vec![entry("a", None, None, false)], None, None)).unwrap();
    assert_eq!(ignore.plan(&ks, false, None, None, false).unwrap().len(), 1);
}

#[test]
fn typed_dict_lookup_by_alias_and_name() {
    let v = TypedDictValidator::build(schema(vec![entry("a", Some("al"), None, false)], None, None)).unwrap();
    let by_name = keys(&["a"]);
    let steps = v.plan(&by_name, false, None, None, false).unwrap();
    assert!(matches!(&steps[0], Step::Fail { error_type: ErrorType::Missing, .. }));
    let steps = v.plan(&by_name, false, None, Some(true), false).unwrap();
    assert!(matches!(&steps[0], Step::Fill { source: Source::Keyword(0), target: Target::Dict(k), .. } if k == "a"));
    let r = v.plan(&by_name, false, Some(false), Some(false), false);
    assert!(matches!(r, Err(ValError::Internal(m)) if m == "`validate_by_alias` and `validate_by_name` cannot both be set to `False`."));
}

#[test]
fn typed_dict_partial_drops_errors_of_last_optional_entry() {
    let v = TypedDictValidator::build(schema(vec![entry("a", None, None, false), entry("b", None, Some(false), false)], None, None)).unwrap();
    let ks = keys(&["a", "b"]);
    let steps = v.plan(&ks, false, None, None, true).unwrap();
    assert!(matches!(&steps[1], Step::Fill { on_line_errors: OnLineErrors::Drop, .. }));
    let bad = ValError::LineErrors(vec![ValLineError::new(ErrorType::IntType)]);
    let out = v.validate(&ks, false, None, None, true, vec![Ok::<i32, ValError>(1), Err(bad)]).unwrap();
    assert_eq!(out.dict, vec![("a".to_string(), 1)]);
}
