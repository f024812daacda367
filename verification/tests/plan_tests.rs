use pydantic_validators::errors::{ErrorInput, ErrorType, LocItem, ValError, ValLineError};
use pydantic_validators::plan::{finish, run_and_finish, run_plan, Inner, OnLineErrors, Source, Step, Target};

fn fill(target: Target, loc: Option<LocItem>, on: OnLineErrors, skip_omit: bool, mark_set: bool) -> Step {
    Step::Fill { source: Source::Keyword(0), validator: Inner::Item(0), target, loc, on_line_errors: on, skip_omit, mark_set }
}

fn line_err() -> ValError {
    ValError::LineErrors(vec![ValLineError::new(ErrorType::IntType)])
}

#[test]
fn run_places_values_and_marks_set_fields() {
    let steps = vec![
        fill(Target::Args, None, OnLineErrors::Collect, false, false),
        fill(Target::Dict("a".to_string()), None, OnLineErrors::Collect, false, true),
        fill(Target::Extra("e".to_string()), None, OnLineErrors::Collect, false, true),
        fill(Target::InitOnly("i".to_string()), None, OnLineErrors::Collect, false, false),
        fill(Target::Merge, None, OnLineErrors::Collect, false, false),
        fill(Target::Drop, None, OnLineErrors::Collect, false, true),
    ];
    let outcomes: Vec<Result<i32, ValError>> = vec![Ok(1), Ok(2), Ok(3), Ok(4), Ok(5), Ok(6)];
    let g = run_plan(steps, outcomes).unwrap();
    assert_eq!(g.args, vec![1]);
    assert_eq!(g.dict, vec![("a".to_string(), 2)]);
    assert_eq!(g.extra, vec![("e".to_string(), 3)]);
    assert_eq!(g.init_only, vec![("i".to_string(), 4)]);
    assert_eq!(g.merged, vec![5]);
    assert_eq!(g.fields_set, vec!["a".to_string(), "e".to_string()]);
    assert!(g.errors.is_empty());
}

#[test]
fn collected_errors_are_located_and_fail_the_validation() {
    let steps = vec![
        fill(Target::Dict("a".to_string()), Some(LocItem::S("a".to_string())), OnLineErrors::Collect, false, true),
        Step::Fail { error_type: ErrorType::Missing, loc: Some(LocItem::S("b".to_string())), input: ErrorInput::Whole },
        fill(Target::Dict("c".to_string()), None, OnLineErrors::Drop, false, true),
    ];
    let outcomes: Vec<Result<i32, ValError>> = vec![Err(line_err()), Ok(0), Err(line_err())];
    match run_and_finish(steps, outcomes) {
        Err(ValError::LineErrors(es)) => {
            assert_eq!(es.len(), 2);
            assert!(matches!(es[0].error_type, ErrorType::IntType));
            assert!(matches!(&es[0].loc[0], LocItem::S(s) if s == "a"));
            assert!(matches!(es[1].error_type, ErrorType::Missing));
            assert!(matches!(&es[1].loc[0], LocItem::S(s) if s == "b"));
        }
        other => panic!("unexpected {:?}", other),
    }
}

#[test]
fn stop_and_omit_end_the_run() {
    let steps = vec![fill(Target::Args, None, OnLineErrors::Stop, false, false), fill(Target::Args, None, OnLineErrors::Collect, false, false)];
    let outcomes: Vec<Result<i32, ValError>> = vec![Err(line_err()), Ok(1)];
    assert!(matches!(run_plan(steps, outcomes), Err(ValError::LineErrors(es)) if es.len() == 1));

    let steps = vec![fill(Target::Args, None, OnLineErrors::Collect, true, false), fill(Target::Args, None, OnLineErrors::Collect, false, false)];
    let outcomes: Vec<Result<i32, ValError>> = vec![Err(ValError::Omit), Ok(1)];
    assert_eq!(run_plan(steps, outcomes).unwrap().args, vec![1]);

    let steps = vec![fill(Target::Args, None, OnLineErrors::Collect, false, false)];
    let outcomes: Vec<Result<i32, ValError>> = vec![Err(ValError::Omit)];
    assert!(matches!(run_plan(steps, outcomes), Err(ValError::Omit)));

    let steps = vec![fill(Target::Args, None, OnLineErrors::Collect, true, false)];
    let outcomes: Vec<Result<i32, ValError>> = vec![Err(ValError::Internal("x".to_string()))];
    assert!(matches!(run_plan(steps, outcomes), Err(ValError::Internal(_))));
}

#[test]
fn finish_passes_clean_runs_through() {
    let g = run_plan(vec![fill(Target::Args, None, OnLineErrors::Collect, false, false)], vec![Ok::<i32, ValError>(9)]);
    let out = finish(g).unwrap();
    assert_eq!(out.args, vec![9]);
    assert!(matches!(finish::<i32>(Err(ValError::UseDefault)), Err(ValError::UseDefault)));
}

#[test]
fn an_error_fails_the_validation_whatever_follows() {
    let steps = vec![
        Step::Fail { error_type: ErrorType::ExtraForbidden, loc: None, input: ErrorInput::Keyword(3) },
        fill(Target::Args, None, OnLineErrors::Collect, false, false),
    ];
    let out = run_and_finish(steps, vec![Ok::<i32, ValError>(0), Ok(1)]);
    assert!(out.is_err());
}
