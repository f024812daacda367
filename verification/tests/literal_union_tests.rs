use pydantic_validators::chain::{chain_n_name, validate_chain, BuiltChain, Chain2Validator, Chain3Validator, ChainStep, ChainValidator};
use pydantic_validators::errors::{ErrorType, LocItem, ValError, ValLineError};
use pydantic_validators::literal::{expected_repr_name, LiteralInput, LiteralItem, LiteralValidator};
use pydantic_validators::lookup::{InputKey, LookupKey};
use pydantic_validators::union::{join_names, TaggedUnionChoiceSchema, TaggedUnionValidator, UnionValidator};

fn s(x: &str) -> String {
    x.to_string()
}

fn line_err(t: ErrorType) -> ValError {
    ValError::LineErrors(vec![ValLineError::new(t)])
}

#[test]
fn expected_repr_lists_values() {
    let (repr, name) = expected_repr_name(vec![s("'a'"), s("1"), s("2")], "literal");
    assert_eq!(repr, "'a', 1 or 2");
    assert_eq!(name, "literal['a',1,2]");
    let (repr, name) = expected_repr_name(vec![s("1")], "enum");
    assert_eq!(repr, "1");
    assert_eq!(name, "enum[1]");
}

#[test]
fn literal_matches_ints_strings_and_others() {
    let v = LiteralValidator::build(vec![LiteralItem::Int(1), LiteralItem::Str(s("a")), LiteralItem::Other, LiteralItem::Int(1)], vec![s("1"), s("'a'"), s("x"), s("1")]).unwrap();
    assert_eq!(v.name, "literal[1,'a',x,1]");
    assert_eq!(v.validate(&LiteralInput::Int(1), None).unwrap(), 3);
    assert_eq!(v.validate(&LiteralInput::Str(s("a")), None).unwrap(), 1);
    assert_eq!(v.validate(&LiteralInput::Other, Some(2)).unwrap(), 2);
    match v.validate(&LiteralInput::Int(2), None) {
        Err(ValError::LineErrors(es)) => assert!(matches!(&es[0].error_type, ErrorType::LiteralError { expected } if expected == "1, 'a', x or 1")),
        other => panic!("unexpected {:?}", other),
    }
    assert!(LiteralValidator::build(vec![], vec![]).is_err());
    let only_ints = LiteralValidator::build(vec![LiteralItem::Int(1)], vec![s("1")]).unwrap();
    assert!(only_ints.validate(&LiteralInput::Other, Some(0)).is_err());
}

#[test]
fn union_smart_mode_prefers_strict_success() {
    let u = UnionValidator::build(vec![s("int"), s("str")], false);
    assert_eq!(u.name, "union[int,str]");
    let strict = vec![Err(line_err(ErrorType::IntType)), Ok(2)];
    let lax = vec![Ok(1), Ok(2)];
    assert_eq!(u.validate(None, strict, lax).unwrap(), 2);
    let strict = vec![Err(line_err(ErrorType::IntType)), Err(line_err(ErrorType::IntType))];
    let lax = vec![Err(line_err(ErrorType::IntType)), Ok(5)];
    assert_eq!(u.validate(None, strict, lax).unwrap(), 5);
}

#[test]
fn union_gathers_every_choices_errors() {
    let u = UnionValidator::build(vec![s("int"), s("str")], true);
    let strict: Vec<Result<i32, ValError>> = vec![Err(line_err(ErrorType::IntType)), Err(line_err(ErrorType::TupleType))];
    match u.validate(None, strict, vec![Ok(0), Ok(0)]) {
        Err(ValError::LineErrors(es)) => {
            assert_eq!(es.len(), 2);
            assert!(matches!(&es[0].loc[0], LocItem::S(n) if n == "int"));
            assert!(matches!(&es[1].loc[0], LocItem::S(n) if n == "str"));
        }
        other => panic!("unexpected {:?}", other),
    }
    let strict: Vec<Result<i32, ValError>> = vec![Err(ValError::Omit), Ok(1)];
    assert!(matches!(u.validate(None, strict, vec![Ok(0), Ok(0)]), Err(ValError::Omit)));
    assert_eq!(join_names(&vec![s("a"), s("b")], "|"), "a|b");
}

#[test]
fn tagged_union_picks_by_tag() {
    let choice = |k: &str, t: &str, n: &str| TaggedUnionChoiceSchema { tag_key: Some(s(k)), tag: s(t), validator_name: s(n) };
    let v = TaggedUnionValidator::build(vec![choice("kind", "cat", "Cat"), choice("kind", "dog", "Dog")], false, false).unwrap();
    assert_eq!(v.name, "tagged-union[Cat,Dog]");
    assert_eq!(v.tags_repr, "('kind')=cat, ('kind')=dog");
    let keys = vec![InputKey::Str(s("name")), InputKey::Str(s("kind"))];
    assert_eq!(v.pick_choice(&keys, &vec![Some(s("x")), Some(s("dog"))]).unwrap(), 1);
    match v.pick_choice(&keys, &vec![None, Some(s("cow"))]) {
        Err(ValError::LineErrors(es)) => assert!(matches!(&es[0].error_type, ErrorType::UnionTagNotFound { tags } if tags == "('kind')=cat, ('kind')=dog")),
        other => panic!("unexpected {:?}", other),
    }
    let bad = TaggedUnionChoiceSchema { tag_key: None, tag: s("x"), validator_name: s("X") };
    assert_eq!(TaggedUnionValidator::build(vec![bad], false, false).unwrap_err(), "'tag_key' or 'tag_keys' must be set on tagged union choices");
    let _ = LookupKey { key: s("k"), alt_key: None };
}

#[test]
fn chains_flatten_and_stop_at_first_failure() {
    let step = |n: &str| ChainStep { validator: 0u8, name: s(n) };
    match ChainValidator::build(vec![vec![step("a"), step("b")], vec![step("c")]]).unwrap() {
        BuiltChain::Chain(c) => {
            assert_eq!(c.steps.len(), 3);
            assert_eq!(c.name, "chain[a,b,c]");
            assert!(matches!(c.validate(vec![Ok(1), Err(ValError::Omit), Ok(3)]), Err(ValError::Omit)));
        }
        other => panic!("unexpected {:?}", other),
    }
    assert!(matches!(ChainValidator::build(vec![vec![step("a")]]).unwrap(), BuiltChain::Single(s) if s.name == "a"));
    assert_eq!(ChainValidator::<u8>::build(vec![]).unwrap_err(), "One or more steps required for a chain validator");
    let c2 = Chain2Validator::build(s("int"), s("str"));
    assert_eq!(c2.name, "chain2[int, str]");
    assert_eq!(c2.validate(Ok(1), Ok(2)).unwrap(), 2);
    match c2.validate::<i32>(Err(line_err(ErrorType::IntType)), Ok(2)) {
        Err(ValError::LineErrors(es)) => assert!(matches!(&es[0].loc[0], LocItem::S(n) if n == "chain2[int, str]")),
        other => panic!("unexpected {:?}", other),
    }
    let c3 = Chain3Validator::build(s("a"), s("b"), s("c"));
    assert_eq!(c3.name, "chain3[a, b, c]");
    assert!(matches!(c3.validate::<i32>(Ok(1), Ok(2), Err(ValError::Omit)), Err(ValError::Omit)));
    assert_eq!(chain_n_name("function-after", &vec![s("a"), s("b")]), "function-after[a, b]");
    assert_eq!(validate_chain(&s("c"), vec![Ok(1), Ok(2)]).unwrap(), 2);
    match validate_chain(&s("c"), vec![Ok(1), Err(line_err(ErrorType::IntType)), Err(ValError::Omit)]) {
        Err(ValError::LineErrors(es)) => assert!(matches!(&es[0].loc[0], LocItem::S(n) if n == "c")),
        other => panic!("unexpected {:?}", other),
    }
}
