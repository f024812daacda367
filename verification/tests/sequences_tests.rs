use pydantic_validators::errors::{ErrorType, LocItem, ValError, ValLineError};
use pydantic_validators::sequences::{
    collection_strict_behavior, entry_result, length_check, min_length_check, tuple_iteration_of, DictValidator, FrozenSetValidator, IntoSetValidator, SetValidator,
    IterableKind, Iteration, ListRead, ListValidator, SetKind, TupleItem, TuplePositionalValidator, TupleVariableValidator,
};

fn only_error(e: ValError) -> ErrorType {
    match e {
        ValError::LineErrors(mut es) => {
            assert_eq!(es.len(), 1);
            es.remove(0).error_type
        }
        other => panic!("unexpected {:?}", other),
    }
}

#[test]
fn length_checks() {
    assert!(length_check("List", Some(1), Some(3), 2).is_ok());
    assert!(matches!(only_error(length_check("List", Some(1), Some(3), 0).unwrap_err()), ErrorType::TooShort { field_type: Some(t), min_length: 1, actual_length: 0 } if t == "List"));
    assert!(matches!(only_error(length_check("Set", None, Some(3), 4).unwrap_err()), ErrorType::TooLong { field_type: Some(t), max_length: 3, actual_length: 4 } if t == "Set"));
    assert!(min_length_check("List", None, 0).is_ok());
    assert!(min_length_check("List", Some(2), 1).is_err());
}

#[test]
fn tuple_iteration_rules() {
    assert_eq!(tuple_iteration_of(Some(IterableKind::Tuple), true).unwrap(), Iteration::Direct);
    assert_eq!(tuple_iteration_of(Some(IterableKind::List), false).unwrap(), Iteration::Converted);
    assert!(matches!(only_error(tuple_iteration_of(Some(IterableKind::List), true).unwrap_err()), ErrorType::TupleType));
    assert!(tuple_iteration_of(Some(IterableKind::Str), false).is_err());
    assert!(tuple_iteration_of(None, false).is_err());
}

#[test]
fn tuple_builds_and_positions() {
    let v = TupleVariableValidator::build("int", false, None, Some(3));
    assert_eq!(v.name, "tuple[int, ...]");
    assert_eq!(v.min_length, 0);
    let p = TuplePositionalValidator::build(&vec!["int".to_string(), "str".to_string()], false, false);
    assert_eq!(p.name, "tuple[int, str]");
    assert_eq!(p.next_item(1).unwrap(), TupleItem::Position(1));
    assert!(matches!(only_error(p.next_item(2).unwrap_err()), ErrorType::TooLong { max_length: 2, actual_length: 3, .. }));
    let q = TuplePositionalValidator::build(&vec!["int".to_string()], false, true);
    assert_eq!(q.next_item(5).unwrap(), TupleItem::Extra);
}

#[test]
fn tuple_remaining_positions() {
    let p = TuplePositionalValidator::build(&vec!["a".to_string(), "b".to_string(), "c".to_string()], false, false);
    assert_eq!(p.remaining_defaults(1, vec![Ok(Some(7)), Ok(Some(8))]).unwrap(), vec![7, 8]);
    match p.remaining_defaults::<i32>(1, vec![Ok(Some(7)), Ok(None)]) {
        Err(ValError::LineErrors(es)) => {
            assert!(matches!(es[0].error_type, ErrorType::Missing));
            assert!(matches!(es[0].loc[0], LocItem::I(2)));
        }
        other => panic!("unexpected {:?}", other),
    }
    assert!(matches!(p.remaining_defaults::<i32>(0, vec![Err(ValError::Omit), Ok(None), Ok(None)]), Err(ValError::Omit)));
    assert!(p.remaining_defaults::<i32>(3, vec![]).unwrap().is_empty());
}

#[test]
fn strict_behavior_of_collections() {
    assert!(collection_strict_behavior(false, &vec![]));
    assert!(!collection_strict_behavior(true, &vec![false, false]));
    assert!(collection_strict_behavior(true, &vec![false, true]));
}

#[test]
fn sets_build_and_iterate() {
    let s = IntoSetValidator::build(SetKind::PlainSet, "int", false, None, Some(4), None);
    assert_eq!(s.name, "set[int]");
    assert_eq!(s.generator_max_length, Some(40));
    assert_eq!(s.validate_into_set(Some(IterableKind::PythonSet), Some(true)).unwrap(), Iteration::Direct);
    assert_eq!(s.validate_into_set(Some(IterableKind::PythonFrozenSet), None).unwrap(), Iteration::Converted);
    assert!(matches!(only_error(s.validate_into_set(Some(IterableKind::PythonFrozenSet), Some(true)).unwrap_err()), ErrorType::SetType));
    assert!(matches!(only_error(s.validate_into_set(None, None).unwrap_err()), ErrorType::ListType));
    let f = FrozenSetValidator::build("str", true, Some(1), None, Some(5)).inner;
    assert_eq!(SetValidator::build("int", false, None, None, None).inner.name, "set[int]");
    assert_eq!(f.name, "frozenset[str]");
    assert_eq!(f.generator_max_length, Some(5));
    assert!(matches!(only_error(f.validate_into_set(Some(IterableKind::Str), None).unwrap_err()), ErrorType::FrozenSetType));
    assert_eq!(f.validate_into_set(Some(IterableKind::JsonArray), None).unwrap(), Iteration::Direct);
}

#[test]
fn dicts_build_iterate_and_locate_errors() {
    let d = DictValidator::build("str", "int", false, None, None);
    assert_eq!(d.name, "dict[str,int]");
    assert_eq!(d.iteration(Some(IterableKind::JsonObject), Some(true)).unwrap(), Iteration::Direct);
    assert_eq!(d.iteration(Some(IterableKind::List), None).unwrap(), Iteration::Converted);
    assert!(matches!(only_error(d.iteration(Some(IterableKind::List), Some(true)).unwrap_err()), ErrorType::DictType));
    let bad = || ValError::LineErrors(vec![ValLineError::new(ErrorType::IntType)]);
    let key = LocItem::S("k".to_string());
    match entry_result::<i32, i32>(&key, Err(bad()), None) {
        Err(ValError::LineErrors(es)) => {
            assert_eq!(es[0].loc.len(), 2);
            assert!(matches!(&es[0].loc[0], LocItem::S(s) if s == "k"));
            assert!(matches!(&es[0].loc[1], LocItem::S(s) if s == "[key]"));
        }
        other => panic!("unexpected {:?}", other),
    }
    match entry_result::<i32, i32>(&key, Ok(1), Some(Err(bad()))) {
        Err(ValError::LineErrors(es)) => assert_eq!(es[0].loc.len(), 1),
        other => panic!("unexpected {:?}", other),
    }
    assert_eq!(entry_result::<i32, i32>(&key, Ok(1), Some(Ok(2))).unwrap(), (1, 2));
}

#[test]
fn lists_check_lengths() {
    let l = ListValidator::build(None, false, Some(1), Some(2));
    assert_eq!(l.name, "list[any]");
    assert_eq!(l.validate(Ok(ListRead::List(vec![1, 2])), None).unwrap(), vec![1, 2]);
    assert!(matches!(only_error(l.validate(Ok(ListRead::List(vec![1, 2, 3])), None).unwrap_err()), ErrorType::TooLong { max_length: 2, .. }));
    assert!(matches!(only_error(l.validate::<i32>(Ok(ListRead::Other), Some(Ok(vec![]))).unwrap_err()), ErrorType::TooShort { min_length: 1, .. }));
    let typed = ListValidator::build(Some("int"), false, None, None);
    assert_eq!(typed.name, "list[int]");
    assert_eq!(typed.validate(Ok(ListRead::List(vec![9])), Some(Ok(vec![10]))).unwrap(), vec![10]);
    assert!(matches!(typed.validate::<i32>(Err(ValError::Omit), None), Err(ValError::Omit)));
}

#[test]
fn tuples_gather_their_items() {
    let v = TupleVariableValidator::build("int", false, Some(1), Some(2));
    assert_eq!(v.validate(Some(IterableKind::Tuple), None, true, vec![Ok(1), Ok(2)]).unwrap(), vec![1, 2]);
    let bad = || ValError::LineErrors(vec![ValLineError::new(ErrorType::IntType)]);
    match v.validate::<i32>(Some(IterableKind::List), None, true, vec![Ok(1), Err(bad())]) {
        Err(ValError::LineErrors(es)) => {
            assert_eq!(es.len(), 1);
            assert!(matches!(es[0].loc[0], LocItem::I(1)));
        }
        other => panic!("unexpected {:?}", other),
    }
    assert!(matches!(only_error(v.validate(Some(IterableKind::Tuple), None, true, vec![Ok(1), Ok(2), Ok(3)]).unwrap_err()), ErrorType::TooLong { max_length: 2, actual_length: 3, .. }));
    match v.validate::<i32>(Some(IterableKind::Tuple), None, true, vec![Err(bad())]) {
        Err(ValError::LineErrors(es)) => {
            assert_eq!(es.len(), 2);
            assert!(matches!(es[1].error_type, ErrorType::TooShort { min_length: 1, actual_length: 0, .. }));
        }
        other => panic!("unexpected {:?}", other),
    }
    assert_eq!(v.validate(Some(IterableKind::Tuple), None, true, vec![Ok(1), Err(ValError::Omit)]).unwrap(), vec![1]);
    assert!(matches!(v.validate::<i32>(Some(IterableKind::Tuple), None, true, vec![Err(ValError::Internal("x".to_string())), Ok(1)]), Err(ValError::Internal(_))));
    assert!(matches!(only_error(v.validate::<i32>(Some(IterableKind::List), None, false, vec![]).unwrap_err()), ErrorType::TupleType));
}

#[test]
fn sets_count_distinct_items() {
    let s = SetValidator::build("int", false, None, Some(2), None).inner;
    assert_eq!(s.validate(Some(IterableKind::JsonArray), None, true, vec![Ok(1), Ok(1), Ok(2)], vec![true, false, true]).unwrap(), vec![1, 2]);
    match s.validate(Some(IterableKind::JsonArray), None, true, vec![Ok(1), Ok(2), Ok(3)], vec![true, true, true]) {
        Err(e) => assert!(matches!(only_error(e), ErrorType::TooLong { field_type: Some(t), max_length: 2, actual_length: 3 } if t == "Set")),
        other => panic!("unexpected {:?}", other),
    }
    assert!(matches!(only_error(s.validate::<i32>(None, None, true, vec![], vec![]).unwrap_err()), ErrorType::ListType));
}

#[test]
fn dicts_gather_entries_and_replace_repeated_keys() {
    let d = DictValidator::build("str", "int", false, None, Some(2));
    let out = d.validate(Some(IterableKind::Dict), None, true, vec![Ok(("a", 1)), Ok(("b", 2)), Ok(("a", 3))], vec![None, None, Some(0)]).unwrap();
    assert_eq!(out, vec![("a", 3), ("b", 2)]);
    match d.validate(Some(IterableKind::Dict), None, true, vec![Ok(("a", 1)), Ok(("b", 2)), Ok(("c", 3))], vec![None, None, None]) {
        Err(e) => assert!(matches!(only_error(e), ErrorType::TooLong { field_type: Some(t), max_length: 2, actual_length: 3 } if t == "Dictionary")),
        other => panic!("unexpected {:?}", other),
    }
    let key = LocItem::S("k".to_string());
    let bad = entry_result::<&str, i32>(&key, Ok("k"), Some(Err(ValError::LineErrors(vec![ValLineError::new(ErrorType::IntType)]))));
    match d.validate(Some(IterableKind::Dict), None, true, vec![bad, Ok(("z", 0))], vec![None, None]) {
        Err(ValError::LineErrors(es)) => {
            assert_eq!(es.len(), 1);
            assert!(matches!(&es[0].loc[0], LocItem::S(s) if s == "k"));
        }
        other => panic!("unexpected {:?}", other),
    }
    let short = DictValidator::build("str", "int", false, Some(1), None);
    assert!(matches!(only_error(short.validate::<&str, i32>(Some(IterableKind::Dict), None, true, vec![], vec![]).unwrap_err()), ErrorType::TooShort { min_length: 1, actual_length: 0, .. }));
}
