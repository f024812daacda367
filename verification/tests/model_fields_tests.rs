use pydantic_validators::errors::{ErrorType, LocItem, ValError, ValLineError};
use pydantic_validators::extra::ExtraBehavior;
use pydantic_validators::lookup::InputKey;
use pydantic_validators::model_fields::{
    dict_type_as_model_type, AssignmentAction, ModelFieldSchema, ModelFieldsInput, ModelFieldsSchema, ModelFieldsValidator,
};
use pydantic_validators::plan::{Inner, Source, Step, Target};

fn field(name: &str, alias: Option<&str>, has_default: bool, frozen: bool) -> ModelFieldSchema {
    ModelFieldSchema {
        name: name.to_string(),
        validation_alias: alias.map(|a| a.to_string()),
        schema_error: None,
        frozen: Some(frozen),
        has_default,
    }
}

fn schema(fields: Vec<ModelFieldSchema>, extra: Option<&str>) -> ModelFieldsSchema {
    ModelFieldsSchema {
        fields,
        model_name: Some("User".to_string()),
        extra_behavior: extra.map(|e| e.to_string()),
        has_extras_schema: false,
        strict: false,
        from_attributes: None,
        populate_by_name: None,
        loc_by_alias: None,
    }
}

fn keys(ks: &[&str]) -> Vec<InputKey> {
    ks.iter().map(|k| InputKey::Str(k.to_string())).collect()
}

fn user(extra: Option<&str>) -> ModelFieldsValidator {
    ModelFieldsValidator::build(schema(vec![field("id", None, false, false), field("name", Some("n"), true, true)], extra)).unwrap()
}

#[test]
fn build_errors() {
    assert_eq!(ModelFieldsValidator::build(schema(vec![], Some("bogus"))).unwrap_err(), "Invalid extra_behavior: \"bogus\"");
    let mut s = schema(vec![], Some("forbid"));
    s.has_extras_schema = true;
    assert_eq!(ModelFieldsValidator::build(s).unwrap_err(), "extras_schema can only be used if extra_behavior=allow");
    let mut f = field("x", None, false, false);
    f.schema_error = Some("bad".to_string());
    assert_eq!(ModelFieldsValidator::build(schema(vec![f], None)).unwrap_err(), "Field \"x\":\n  bad");
    let mut s = schema(vec![], None);
    s.model_name = None;
    assert_eq!(ModelFieldsValidator::build(s).unwrap().model_name, "Model");
}

#[test]
fn mapping_plan_takes_values_defaults_and_reports_missing() {
    let v = user(None);
    let steps = v.plan_mapping(&keys(&["id", "n"]), false);
    assert_eq!(steps.len(), 2);
    assert!(matches!(&steps[0], Step::Fill { source: Source::Keyword(0), validator: Inner::Item(0), target: Target::Dict(k), mark_set: true, .. } if k == "id"));
    assert!(matches!(&steps[1], Step::Fill { source: Source::Keyword(1), target: Target::Dict(k), loc: Some(LocItem::S(l)), .. } if k == "name" && l == "n"));
    let steps = v.plan_mapping(&keys(&[]), false);
    assert!(matches!(&steps[0], Step::Fail { error_type: ErrorType::Missing, loc: Some(LocItem::S(l)), .. } if l == "id"));
    assert!(matches!(&steps[1], Step::Fill { source: Source::Default(1), mark_set: false, .. }));
}

#[test]
fn forbidden_extra_key_fails_validation() {
    let v = user(Some("forbid"));
    let input = ModelFieldsInput::Mapping { keys: keys(&["id", "zz"]), from_attributes: false };
    let steps = v.plan(&input);
    assert!(matches!(&steps[2], Step::Fail { error_type: ErrorType::ExtraForbidden, loc: Some(LocItem::S(k)), .. } if k == "zz"));
    let outcomes: Vec<Result<i32, ValError>> = steps.iter().map(|_| Ok(1)).collect();
    assert!(v.validate(input, outcomes).is_err());
}

#[test]
fn allowed_extras_are_kept() {
    let v = user(Some("allow"));
    let input = ModelFieldsInput::Mapping { keys: keys(&["id", "zz"]), from_attributes: false };
    let steps = v.plan(&input);
    assert_eq!(steps.len(), 3);
    let out = v.validate(input, vec![Ok::<i32, ValError>(1), Ok(2), Ok(3)]).unwrap();
    assert_eq!(out.dict, vec![("id".to_string(), 1), ("name".to_string(), 2)]);
    assert_eq!(out.extra, vec![("zz".to_string(), 3)]);
    assert_eq!(out.fields_set, vec!["id".to_string(), "zz".to_string()]);
}

#[test]
fn json_object_takes_last_duplicate_key() {
    let v = user(Some("forbid"));
    let ks = vec!["id".to_string(), "q".to_string(), "id".to_string()];
    let steps = v.plan_json(&ks);
    assert!(matches!(&steps[0], Step::Fail { error_type: ErrorType::ExtraForbidden, loc: Some(LocItem::S(k)), .. } if k == "q"));
    assert!(matches!(&steps[1], Step::Fill { source: Source::Keyword(2), target: Target::Dict(k), .. } if k == "id"));
}

#[test]
fn non_mapping_inputs_are_model_type_errors() {
    let v = user(None);
    match v.validate::<i32>(ModelFieldsInput::JsonOther, vec![]) {
        Err(ValError::LineErrors(es)) => {
            assert_eq!(es.len(), 1);
            assert!(matches!(&es[0].error_type, ErrorType::ModelType { class_name } if class_name == "User"));
        }
        other => panic!("unexpected {:?}", other),
    }
    let errors = vec![ValLineError::new(ErrorType::DictType), ValLineError::new(ErrorType::IntType)];
    let out = dict_type_as_model_type(errors, &"M".to_string());
    assert!(matches!(&out[0].error_type, ErrorType::ModelType { class_name } if class_name == "M"));
    assert!(matches!(out[1].error_type, ErrorType::IntType));
}

#[test]
fn assignment_actions() {
    let v = user(None);
    assert!(matches!(v.assignment_action(&"id".to_string()), AssignmentAction::Validate(Inner::Item(0))));
    assert!(matches!(v.assignment_action(&"name".to_string()), AssignmentAction::Reject(ErrorType::FrozenField)));
    assert!(matches!(v.assignment_action(&"zz".to_string()), AssignmentAction::Reject(ErrorType::NoSuchAttribute { attribute }) if attribute == "zz"));
    let allow = user(Some("allow"));
    assert!(matches!(allow.assignment_action(&"zz".to_string()), AssignmentAction::Store));
    let r = v.assignment_result::<i32>(&"name".to_string(), AssignmentAction::Reject(ErrorType::FrozenField), None);
    assert!(matches!(r, Err(ValError::LineErrors(es)) if matches!(&es[0].loc[0], LocItem::S(s) if s == "name")));
    let r = v.assignment_result(&"id".to_string(), AssignmentAction::Validate(Inner::Item(0)), Some(Ok(5)));
    assert_eq!(r.unwrap(), Some(5));
}

#[test]
fn split_data_separates_fields_from_extras() {
    let v = user(Some("allow"));
    let (fields, others) = v.split_data(&vec!["zz".to_string(), "name".to_string(), "id".to_string()]);
    assert_eq!(fields, vec![2, 1]);
    assert_eq!(others, vec![0]);
    assert!(matches!(v.extra_behavior, ExtraBehavior::Allow));
}

#[test]
fn fields_set_holds_given_fields_then_kept_extras() {
    let v = user(Some("allow"));
    let input = ModelFieldsInput::Mapping { keys: keys(&["zz", "n", "yy"]), from_attributes: false };
    let steps = v.plan(&input);
    let outcomes: Vec<Result<i32, ValError>> = steps.iter().map(|_| Ok(0)).collect();
    let out = v.validate(input, outcomes);
    // without "id" the validation fails
    assert!(out.is_err());
    let input = ModelFieldsInput::Mapping { keys: keys(&["zz", "n", "id", "yy"]), from_attributes: false };
    let steps = v.plan(&input);
    let outcomes: Vec<Result<i32, ValError>> = steps.iter().map(|_| Ok(0)).collect();
    let out = v.validate(input, outcomes).unwrap();
    assert_eq!(out.fields_set, vec!["id".to_string(), "name".to_string(), "zz".to_string(), "yy".to_string()]);
}

#[test]
fn assignment_sets_only_the_assigned_entry() {
    let v = user(None);
    let data = vec![("id".to_string(), 1), ("name".to_string(), 2)];
    let a = v.validate_assignment(data, &"id".to_string(), 9, Some(Ok(10))).unwrap();
    assert_eq!(a.data, vec![("id".to_string(), 10), ("name".to_string(), 2)]);
    assert_eq!(a.fields_set, vec!["id".to_string()]);
    let data = vec![("id".to_string(), 1)];
    match v.validate_assignment(data, &"name".to_string(), 3, None) {
        Err(ValError::LineErrors(es)) => {
            assert!(matches!(es[0].error_type, ErrorType::FrozenField));
            assert_eq!(es[0].input, pydantic_validators::errors::ErrorInput::Whole);
        }
        other => panic!("unexpected {:?}", other),
    }
    let allow = user(Some("allow"));
    let a = allow.validate_assignment(vec![("id".to_string(), 1)], &"zz".to_string(), 5, None).unwrap();
    assert_eq!(a.data, vec![("id".to_string(), 1), ("zz".to_string(), 5)]);
    assert_eq!(a.fields_set, vec!["zz".to_string()]);
    let bad = ValError::LineErrors(vec![ValLineError::new(ErrorType::IntType)]);
    match v.validate_assignment(vec![("id".to_string(), 1)], &"id".to_string(), 0, Some(Err(bad))) {
        Err(ValError::LineErrors(es)) => assert!(matches!(&es[0].loc[0], LocItem::S(s) if s == "id")),
        other => panic!("unexpected {:?}", other),
    }
}
