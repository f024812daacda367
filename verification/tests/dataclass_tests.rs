use pydantic_validators::dataclass::{DataclassArgsValidator, DataclassFieldSchema};
use pydantic_validators::errors::{ErrorType, LocItem, ValError};
use pydantic_validators::lookup::InputKey;
use pydantic_validators::plan::{Source, Step, Target};

fn field(name: &str, positional: bool, init_only: bool, has_default: bool) -> DataclassFieldSchema {
    DataclassFieldSchema {
        name: name.to_string(),
        alias: None,
        schema_error: None,
        omit_on_error: false,
        has_default,
        positional: Some(positional),
        init_only: Some(init_only),
    }
}

fn keys(ks: &[&str]) -> Vec<InputKey> {
    ks.iter().map(|k| InputKey::Str(k.to_string())).collect()
}

fn point(collect_init_only: bool) -> DataclassArgsValidator {
    DataclassArgsValidator::build(vec![field("x", true, false, false), field("y", true, true, true), field("z", false, false, true)], false, collect_init_only).unwrap()
}

#[test]
fn dataclass_build_errors() {
    let mut f = field("a", true, false, false);
    f.omit_on_error = true;
    assert_eq!(DataclassArgsValidator::build(vec![f], false, false).unwrap_err(), "Field `a`: omit_on_error cannot be used with arguments");
    let mut f = field("a", true, false, false);
    f.schema_error = Some("bad".to_string());
    assert_eq!(DataclassArgsValidator::build(vec![f], false, false).unwrap_err(), "Field 'a':\n  bad");
    assert_eq!(point(false).positional_count, 2);
}

#[test]
fn dataclass_binds_and_routes_init_only() {
    let v = point(true);
    let kw = keys(&["z"]);
    let steps = v.plan(Some(2), Some(&kw));
    assert_eq!(steps.len(), 3);
    assert!(matches!(&steps[0], Step::Fill { source: Source::Positional(0), target: Target::Dict(k), .. } if k == "x"));
    assert!(matches!(&steps[1], Step::Fill { source: Source::Positional(1), target: Target::InitOnly(k), .. } if k == "y"));
    assert!(matches!(&steps[2], Step::Fill { source: Source::Keyword(0), target: Target::Dict(k), .. } if k == "z"));
    let out = v.validate(Some(2), Some(&kw), vec![Ok::<i32, ValError>(1), Ok(2), Ok(3)]).unwrap();
    assert_eq!(out.dict, vec![("x".to_string(), 1), ("z".to_string(), 3)]);
    assert_eq!(out.init_only, vec![("y".to_string(), 2)]);
    let dropped = point(false);
    let out = dropped.validate(Some(2), Some(&kw), vec![Ok::<i32, ValError>(1), Ok(2), Ok(3)]).unwrap();
    assert!(out.init_only.is_empty());
    assert_eq!(out.dict.len(), 2);
}

#[test]
fn dataclass_binding_errors() {
    let v = point(false);
    let kw = keys(&["x", "w"]);
    let steps = v.plan(Some(3), Some(&kw));
    assert!(matches!(&steps[0], Step::Fail { error_type: ErrorType::MultipleArgumentValues, loc: Some(LocItem::S(k)), .. } if k == "x"));
    assert!(steps.iter().any(|s| matches!(s, Step::Fail { error_type: ErrorType::UnexpectedPositionalArgument, loc: Some(LocItem::I(2)), .. })));
    assert!(steps.iter().any(|s| matches!(s, Step::Fail { error_type: ErrorType::UnexpectedKeywordArgument, loc: Some(LocItem::S(k)), .. } if k == "w")));
    let outcomes: Vec<Result<i32, ValError>> = steps.iter().map(|_| Ok(0)).collect();
    assert!(v.validate(Some(3), Some(&kw), outcomes).is_err());
    let only_w = keys(&["w"]);
    let steps = v.plan(Some(2), Some(&only_w));
    let outcomes: Vec<Result<i32, ValError>> = steps.iter().map(|_| Ok(0)).collect();
    assert!(v.validate(Some(2), Some(&only_w), outcomes).is_err());
    let steps = v.plan(Some(3), None);
    let outcomes: Vec<Result<i32, ValError>> = steps.iter().map(|_| Ok(0)).collect();
    assert!(v.validate(Some(3), None, outcomes).is_err());
    let steps = v.plan(None, None);
    assert!(matches!(&steps[0], Step::Fail { error_type: ErrorType::MissingKeywordArgument, loc: Some(LocItem::S(k)), .. } if k == "x"));
    let outcomes: Vec<Result<i32, ValError>> = steps.iter().map(|_| Ok(0)).collect();
    assert!(v.validate(None, None, outcomes).is_err());
}
