use ahash::AHashSet;
use pydantic_validators::build_context::{extract_used_refs, BuildContext, Built, SchemaValue};
use pydantic_validators::errors::{ErrorType, ValError};
use pydantic_validators::is_instance::IsInstanceValidator;
use pydantic_validators::recursion::{guard_enter, guard_exit, RecursionGuard, RecursiveContainerValidator, RecursiveRefValidator};
use pydantic_validators::sequences::{collection_name, BuiltIterable, GeneratorValidator, IterableValidator, SequenceValidator};
use pydantic_validators::walk_filter::{core_schema_walk_steps, ser_schema_walk_steps, SchemaKey, WalkStep};

#[test]
fn walk_steps_by_schema_type() {
    assert_eq!(core_schema_walk_steps("int").unwrap(), vec![WalkStep::SerSchema]);
    assert_eq!(
        core_schema_walk_steps("dict").unwrap(),
        vec![WalkStep::Inner(SchemaKey::KeysSchema), WalkStep::Inner(SchemaKey::ValuesSchema), WalkStep::SerSchema]
    );
    assert_eq!(
        core_schema_walk_steps("typed-dict").unwrap(),
        vec![WalkStep::EachFieldInDict(SchemaKey::Fields), WalkStep::Inner(SchemaKey::ExtrasSchema), WalkStep::ComputedFields, WalkStep::SerSchema]
    );
    assert_eq!(core_schema_walk_steps("union").unwrap(), vec![WalkStep::UnionChoices, WalkStep::SerSchema]);
    assert_eq!(core_schema_walk_steps("nope").unwrap_err(), "Unknown schema type: nope");
    assert_eq!(ser_schema_walk_steps("format").unwrap(), vec![]);
    assert_eq!(
        ser_schema_walk_steps("function-wrap").unwrap(),
        vec![WalkStep::Inner(SchemaKey::Schema), WalkStep::Inner(SchemaKey::ReturnSchema)]
    );
    assert_eq!(ser_schema_walk_steps("x").unwrap_err(), "Unknown ser schema type: x");
    assert_eq!(SchemaKey::ItemsSchema.name(), "items_schema");
}

#[test]
fn recursion_guard_detects_loops() {
    let mut g = RecursionGuard::new();
    assert_eq!(guard_enter(&mut g, Some(7)).unwrap(), true);
    match guard_enter(&mut g, Some(7)) {
        Err(ValError::LineErrors(es)) => assert!(matches!(es[0].error_type, ErrorType::RecursionLoop)),
        other => panic!("unexpected {:?}", other),
    }
    assert_eq!(guard_exit(&mut g, Some(7), true, Ok::<i32, ValError>(3)).unwrap(), 3);
    assert!(!g.contains_or_insert(7));
    g.remove(7);
    assert_eq!(guard_enter(&mut g, None).unwrap(), false);
    assert!(g.ids.is_empty());
}

#[test]
fn is_instance_build_and_validate() {
    assert_eq!(IsInstanceValidator::build(false, None, None, "x".to_string()).unwrap_err(), "'cls' must be valid as the first argument to 'isinstance'");
    let v = IsInstanceValidator::build(true, None, Some("Foo".to_string()), "<class Foo>".to_string()).unwrap();
    assert_eq!(v.name, "is-instance[Foo]");
    let w = IsInstanceValidator::build(true, Some("Bar".to_string()), Some("Foo".to_string()), "r".to_string()).unwrap();
    assert_eq!(w.class_repr, "Bar");
    assert!(v.validate(false, Ok(true)).is_ok());
    assert!(matches!(v.validate(false, Ok(false)), Err(ValError::LineErrors(es)) if matches!(&es[0].error_type, ErrorType::IsInstanceOf { class } if class == "Foo")));
    assert!(matches!(v.validate(true, Ok(true)), Err(ValError::Internal(m)) if m == "Cannot check isinstance when validating from json,use a JsonOrPython validator instead."));
}

#[test]
fn specific_validators_use_slots_for_used_refs() {
    let mut used = AHashSet::new();
    used.insert("Node".to_string());
    let mut ctx: BuildContext<String, u8> = BuildContext::new(used);
    assert_eq!(ctx.begin_specific(Some("Other".to_string()), 1), None);
    let slot = ctx.begin_specific(Some("Node".to_string()), 2);
    assert_eq!(slot, Some(0));
    match ctx.finish_specific("model", slot, Ok(("v".to_string(), "Model".to_string()))).unwrap() {
        Built::RecursiveRef { slot_id, name, answers } => {
            assert_eq!((slot_id, name.as_str(), answers), (0, "Model", 2));
        }
        other => panic!("unexpected {:?}", other),
    }
    assert_eq!(ctx.find_validator(0).unwrap(), "v");
    assert_eq!(RecursiveRefValidator::build(&ctx, "Node").unwrap().validator_id, 0);
    assert_eq!(RecursiveRefValidator::build(&ctx, "Leaf").unwrap_err(), "Slots Error: ref 'Leaf' not found");
    assert_eq!(RecursiveContainerValidator::create(4).validator_id, 4);
    let e = ctx.finish_specific("int", None, Err("bad".to_string())).unwrap_err();
    assert_eq!(e, "Error building \"int\" validator:\n  bad");
    assert!(matches!(ctx.finish_specific("int", None, Ok(("w".to_string(), "int".to_string()))), Ok(Built::Direct(v)) if v == "w"));
}

#[test]
fn used_refs_are_found_in_nested_schemas() {
    let rr = |r: Option<&str>| SchemaValue::Dict { recursive_ref: true, schema_ref: r.map(|s| s.to_string()), values: vec![] };
    let tree = SchemaValue::Dict {
        recursive_ref: false,
        schema_ref: None,
        values: vec![SchemaValue::Other, SchemaValue::List(vec![rr(Some("A")), SchemaValue::Other]), rr(Some("B"))],
    };
    let mut refs = AHashSet::new();
    assert!(extract_used_refs(&tree, &mut refs).is_ok());
    let mut got: Vec<String> = refs.into_iter().collect();
    got.sort();
    assert_eq!(got, vec!["A".to_string(), "B".to_string()]);
    let bad = SchemaValue::List(vec![rr(None)]);
    assert!(extract_used_refs(&bad, &mut AHashSet::new()).is_err());
}

#[test]
fn collection_builders_name_their_items() {
    assert_eq!(collection_name("list", None), "list[any]");
    let g = GeneratorValidator::build(Some("int"));
    assert_eq!(g.name, "generator[int]");
    assert!(matches!(IterableValidator::build(None, Some("str"), None, None), BuiltIterable::Lazy(g) if g.name == "generator[str]"));
    match IterableValidator::build(Some(false), None, Some(1), None) {
        BuiltIterable::Eager(v) => {
            assert_eq!(v.name, "iterable[any]");
            assert!(v.validate(Ok(vec![1])).is_ok());
            assert!(v.validate::<i32>(Ok(vec![])).is_err());
        }
        other => panic!("unexpected {:?}", other),
    }
    let s = SequenceValidator::build(None, Some(1), None);
    assert_eq!(s.size_range, Some((Some(1), None)));
    assert_eq!(SequenceValidator::build(Some("int"), None, None).size_range, None);
}
