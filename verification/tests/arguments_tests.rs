use pydantic_validators::arguments::{mode_eq, ArgumentSchema, ArgumentsValidator, DefaultKind};
use pydantic_validators::errors::{ErrorType, LocItem, ValError, ValLineError};
use pydantic_validators::lookup::InputKey;
use pydantic_validators::plan::{Inner, Source, Step, Target};

fn arg(name: &str, mode: &str, has_default: bool) -> ArgumentSchema {
    ArgumentSchema { name: name.to_string(), mode: mode.to_string(), alias: None, schema_error: None, has_default, has_default_factory: false }
}

fn keys(ks: &[&str]) -> Vec<InputKey> {
    ks.iter().map(|k| InputKey::Str(k.to_string())).collect()
}

#[test]
fn arguments_build() {
    let mut a = arg("a", "positional_or_keyword", true);
    a.has_default_factory = true;
    assert_eq!(ArgumentsValidator::build(vec![a], false, false, false).unwrap_err(), "'default' and 'default_factory' cannot be used together");
    let mut b = arg("b", "keyword_only", false);
    b.schema_error = Some("bad".to_string());
    assert_eq!(ArgumentsValidator::build(vec![arg("a", "positional_only", false), b], false, false, false).unwrap_err(), "Argument \"b\":\n  bad");
    let v = ArgumentsValidator::build(vec![arg("a", "positional_only", false), arg("b", "positional_or_keyword", true), arg("c", "keyword_only", false)], false, false, false).unwrap();
    assert_eq!(v.positional_args_count, 1);
    assert!(v.arguments[0].kw_lookup_key.is_none());
    assert!(matches!(v.arguments[1].default, DefaultKind::Value));
    assert!(mode_eq("keyword_only", "keyword_only"));
    assert!(!mode_eq("keyword_only", "positional_only"));
}

#[test]
fn arguments_plan() {
    let v = ArgumentsValidator::build(vec![arg("a", "positional_only", false), arg("b", "positional_or_keyword", true), arg("c", "keyword_only", false)], false, false, true).unwrap();
    let kw = keys(&["b", "extra"]);
    let steps = v.plan(Some(2), Some(&kw));
    assert!(matches!(&steps[0], Step::Fill { source: Source::Positional(0), target: Target::Args, .. }));
    assert!(matches!(&steps[1], Step::Fail { error_type: ErrorType::MultipleArgumentValues, loc: Some(LocItem::I(1)), .. }));
    assert!(matches!(&steps[2], Step::Fail { error_type: ErrorType::MissingArgument, loc: Some(LocItem::S(k)), .. } if k == "c"));
    assert!(steps.iter().any(|s| matches!(s, Step::Fill { validator: Inner::VarKwargs, target: Target::Dict(k), .. } if k == "extra")));
}

#[test]
fn arguments_too_many_positional() {
    let v = ArgumentsValidator::build(vec![arg("a", "positional_only", false), arg("b", "positional_only", false)], false, false, false).unwrap();
    let steps = v.plan(Some(4), None);
    assert!(steps.iter().any(|s| matches!(s, Step::Fail { error_type: ErrorType::UnexpectedPositionalArguments { unexpected_count: 3 }, loc: None, .. })));
}

#[test]
fn arguments_validation_keeps_output_beside_errors() {
    let v = ArgumentsValidator::build(vec![arg("a", "positional_only", false), arg("b", "positional_only", false)], false, false, false).unwrap();
    let bad = ValError::LineErrors(vec![ValLineError::new(ErrorType::IntType)]);
    assert_eq!(v.plan(Some(2), None).len(), 3);
    let out = v.validate_py_args(Some(2), None, vec![Ok::<i32, ValError>(1), Err(bad), Ok(0)]).unwrap();
    assert_eq!(out.args, vec![1]);
    assert_eq!(out.errors.len(), 2);
    assert!(matches!(out.errors[0].loc[0], LocItem::I(1)));
    assert!(matches!(out.errors[1].error_type, ErrorType::UnexpectedPositionalArguments { unexpected_count: 1 }));
}
