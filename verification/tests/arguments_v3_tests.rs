use pydantic_validators::arguments_v3::{ArgsInput, ArgumentsV3Validator, ParameterMode, ParameterSchema};
use pydantic_validators::errors::{ErrorInput, ErrorType, LocItem, ValError};
use pydantic_validators::extra::ExtraBehavior;
use pydantic_validators::lookup::InputKey;
use pydantic_validators::plan::{Inner, Source, Step, Target};

fn param(name: &str, mode: Option<&str>, has_default: bool) -> ParameterSchema {
    ParameterSchema { name: name.to_string(), mode: mode.map(|m| m.to_string()), alias: None, schema_error: None, has_default, omit_on_error: false }
}

fn keys(ks: &[&str]) -> Vec<InputKey> {
    ks.iter().map(|k| InputKey::Str(k.to_string())).collect()
}

fn two_params(extra: ExtraBehavior) -> ArgumentsV3Validator {
    ArgumentsV3Validator::build(vec![param("a", None, false), param("b", Some("keyword_only"), true)], false, true, extra).unwrap()
}

#[test]
fn parameter_modes_read_from_names() {
    assert!(matches!(ParameterMode::from_str("positional_only"), Ok(ParameterMode::PositionalOnly)));
    assert!(matches!(ParameterMode::from_str("var_kwargs_unpacked_typed_dict"), Ok(ParameterMode::VarKwargsUnpackedTypedDict)));
    assert_eq!(ParameterMode::from_str("bogus").unwrap_err(), "Invalid var_kwargs mode: `bogus`");
}

#[test]
fn build_refuses_non_default_after_default() {
    let r = ArgumentsV3Validator::build(vec![param("a", None, true), param("b", None, false)], false, true, ExtraBehavior::Ignore);
    assert_eq!(r.unwrap_err(), "Non-default argument 'b' follows default argument");
    let ok = ArgumentsV3Validator::build(vec![param("a", None, true), param("b", Some("keyword_only"), false)], false, true, ExtraBehavior::Ignore);
    assert!(ok.is_ok());
    let mut p = param("a", None, false);
    p.omit_on_error = true;
    let r = ArgumentsV3Validator::build(vec![p], false, true, ExtraBehavior::Ignore);
    assert_eq!(r.unwrap_err(), "Parameter 'a': omit_on_error cannot be used with arguments");
    let mut q = param("q", None, false);
    q.schema_error = Some("boom".to_string());
    let r = ArgumentsV3Validator::build(vec![q], false, true, ExtraBehavior::Ignore);
    assert_eq!(r.unwrap_err(), "Parameter 'q':\n  boom");
}

#[test]
fn build_counts_positional_parameters() {
    let v = ArgumentsV3Validator::build(
        vec![param("a", Some("positional_only"), false), param("b", None, false), param("args", Some("var_args"), false), param("c", Some("keyword_only"), false)],
        false,
        true,
        ExtraBehavior::Ignore,
    )
    .unwrap();
    assert_eq!(v.positional_params_count, 2);
    assert_eq!(v.find_variadic(false), Some(2));
    assert_eq!(v.find_variadic(true), None);
    assert!(v.parameters[2].is_variadic());
}

#[test]
fn positional_and_keyword_value_is_an_error() {
    let v = two_params(ExtraBehavior::Ignore);
    let input = ArgsInput::ArgsKwargs { args_len: Some(1), kwargs: Some(keys(&["a"])) };
    let steps = v.plan(&input);
    assert!(matches!(&steps[0], Step::Fail { error_type: ErrorType::MultipleArgumentValues, loc: Some(LocItem::S(s)), input: ErrorInput::Keyword(0) } if s == "a"));
    let outcomes: Vec<Result<i32, ValError>> = steps.iter().map(|_| Ok(0)).collect();
    assert!(v.validate(&input, outcomes).is_err());
}

#[test]
fn missing_argument_and_default() {
    let v = two_params(ExtraBehavior::Ignore);
    let steps = v.plan(&ArgsInput::ArgsKwargs { args_len: None, kwargs: None });
    assert_eq!(steps.len(), 2);
    assert!(matches!(&steps[0], Step::Fail { error_type: ErrorType::MissingArgument, loc: Some(LocItem::S(s)), .. } if s == "a"));
    // the default of a keyword-only parameter goes to the positional output, as the
    // binding of positional and keyword arguments has it
    assert!(matches!(&steps[1], Step::Fill { source: Source::Default(1), validator: Inner::Nothing, target: Target::Args, .. }));
}

#[test]
fn binds_positional_and_keyword_values() {
    let v = two_params(ExtraBehavior::Ignore);
    let input = ArgsInput::ArgsKwargs { args_len: Some(1), kwargs: Some(keys(&["b"])) };
    let steps = v.plan(&input);
    assert!(matches!(&steps[0], Step::Fill { source: Source::Positional(0), target: Target::Args, .. }));
    assert!(matches!(&steps[1], Step::Fill { source: Source::Keyword(0), target: Target::Dict(k), .. } if k == "b"));
    let out = v.validate(&input, vec![Ok::<i32, ValError>(1), Ok(2)]).unwrap();
    assert_eq!(out.args, vec![1]);
    assert_eq!(out.dict, vec![("b".to_string(), 2)]);
}

#[test]
fn unexpected_arguments() {
    let v = two_params(ExtraBehavior::Forbid);
    let steps = v.plan(&ArgsInput::ArgsKwargs { args_len: Some(2), kwargs: Some(keys(&["zz"])) });
    assert!(steps.iter().any(|s| matches!(s, Step::Fail { error_type: ErrorType::UnexpectedPositionalArgument, loc: Some(LocItem::I(1)), input: ErrorInput::Positional(1) })));
    assert!(steps.iter().any(|s| matches!(s, Step::Fail { error_type: ErrorType::UnexpectedKeywordArgument, loc: Some(LocItem::S(k)), .. } if k == "zz")));
    let ignore = two_params(ExtraBehavior::Ignore);
    let steps = ignore.plan(&ArgsInput::ArgsKwargs { args_len: Some(1), kwargs: Some(keys(&["zz"])) });
    assert!(!steps.iter().any(|s| matches!(s, Step::Fail { error_type: ErrorType::UnexpectedKeywordArgument, .. })));
}

#[test]
fn var_kwargs_uniform_takes_the_rest() {
    let v = ArgumentsV3Validator::build(vec![param("a", None, false), param("kw", Some("var_kwargs_uniform"), false)], false, true, ExtraBehavior::Forbid).unwrap();
    let (steps, remaining) = v.plan_argskwargs(None, Some(&keys(&["a", "x"])));
    assert!(remaining.is_empty());
    assert!(matches!(&steps[1], Step::Fill { source: Source::Keyword(1), validator: Inner::Item(1), target: Target::Dict(k), .. } if k == "x"));
}

#[test]
fn mapping_input_binds_by_name() {
    let v = two_params(ExtraBehavior::Ignore);
    let ks = keys(&["b", "a"]);
    let nested = vec![None, None];
    let steps = v.plan_mapping(&ks, &nested);
    assert_eq!(steps.len(), 2);
    assert!(matches!(&steps[0], Step::Fill { source: Source::Keyword(1), target: Target::Args, .. }));
    assert!(matches!(&steps[1], Step::Fill { source: Source::Keyword(0), target: Target::Dict(k), .. } if k == "b"));
}
