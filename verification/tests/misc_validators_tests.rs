use pydantic_validators::dates::{bound_date, bound_datetime, date_from_datetime, tzname, DateRead, DateTimeValidator, DateValidator, DateValue};
use pydantic_validators::dates::{Bounds, TimeTzValue, TimeValidator, TimeValue};
use ahash::AHashSet;
use pydantic_validators::build_context::BuildContext;
use pydantic_validators::bytes::{BuiltBytesValidator, BytesSchema, BytesValidator};
use pydantic_validators::config::{base64_result, needs_standard_alphabet, BytesMode, DecodeFailure, TemporalUnitMode, ValBytesMode};
use pydantic_validators::email::{EmailInput, EmailValidator, NameEmailValidator};
use pydantic_validators::enums::{BuildEnumValidator, BuiltEnumValidator, EnumOutcome, MissingOutcome};
use pydantic_validators::errors::{ErrorType, LocItem, ValError};
use pydantic_validators::extra::ExtraBehavior;
use pydantic_validators::lookup::InputKey;
use pydantic_validators::model::{ModelSchema, ModelValidator, ModelValidatorField};
use pydantic_validators::plan::{Source, Step, Target};
use pydantic_validators::simple::{
    BoolValidator, BuiltBoolValidator, FloatValidator, InputType, JsonOrPython, NeverValidator, NullableValidator, PrebuiltValidator,
    UnsetSentinelValidator, VarKwargsMode, VarKwargsValidator,
};
use pydantic_validators::uuid_validator::{UuidInput, UuidResult, UuidValidator, Version};
use pydantic_validators::validation_state::{Extra, ValidationState};
use pydantic_validators::walk_filter::{walk_action, SchemaFacts, WalkAction, WalkCoreSchema, WalkCoreSchemaFilterBuilder};

fn only_error(e: ValError) -> ErrorType {
    match e {
        ValError::LineErrors(mut es) => {
            assert_eq!(es.len(), 1);
            es.remove(0).error_type
        }
        other => panic!("unexpected {:?}", other),
    }
}

#[test]
fn temporal_unit_modes_round_trip() {
    for m in [TemporalUnitMode::Seconds, TemporalUnitMode::Milliseconds, TemporalUnitMode::Infer] {
        assert_eq!(TemporalUnitMode::from_str(m.as_str()).unwrap(), m);
    }
    assert_eq!(TemporalUnitMode::from_str("hours").unwrap_err(), "Invalid temporal_unit_mode serialization mode: `hours`, expected seconds, milliseconds or infer");
    assert_eq!(TemporalUnitMode::from_config(None), TemporalUnitMode::Infer);
}

#[test]
fn bytes_modes_decode_strings() {
    let utf8 = ValBytesMode::from_config(None);
    assert_eq!(utf8.as_str(), "utf-8");
    assert_eq!(utf8.deserialize_string("hé").unwrap(), "hé".as_bytes().to_vec());
    let b64 = ValBytesMode { ser: BytesMode::Base64 };
    assert_eq!(b64.deserialize_string("aGVsbG8").unwrap(), b"hello".to_vec());
    assert_eq!(b64.deserialize_string("-_8=").unwrap(), vec![0xfb, 0xff]);
    assert_eq!(b64.deserialize_string("+/8=").unwrap(), vec![0xfb, 0xff]);
    match b64.deserialize_string("a*b") {
        Err(ErrorType::BytesInvalidEncoding { encoding, encoding_error }) => {
            assert_eq!(encoding, "base64");
            assert!(!encoding_error.is_empty());
        }
        other => panic!("unexpected {:?}", other),
    }
    let hex = ValBytesMode { ser: BytesMode::Hex };
    assert_eq!(hex.deserialize_string("0aff").unwrap(), vec![0x0a, 0xff]);
    assert!(matches!(hex.deserialize_string("0g"), Err(ErrorType::BytesInvalidEncoding { encoding, .. }) if encoding == "hex"));
}

#[test]
fn uuid_validation() {
    let v = UuidValidator::build(Some(4), false);
    assert_eq!(v.version, Some(Version::UUIDv4));
    assert_eq!(Version::UUIDv4.to_usize(), 4);
    let s = "a8098c1a-f86e-41d4-a7b6-0ccb2a0a47f2".to_string();
    match v.validate(UuidInput::Str { s: s.clone(), is_python: true }, None).unwrap() {
        UuidResult::Parsed(p) => {
            assert_eq!(p.version, 4);
            assert_eq!(p.value, 0xa8098c1a_f86e_41d4_a7b6_0ccb2a0a47f2u128);
        }
        other => panic!("unexpected {:?}", other),
    }
    let v1 = UuidValidator::build(Some(1), false);
    assert!(matches!(only_error(v1.validate(UuidInput::Str { s: s.clone(), is_python: true }, None).unwrap_err()), ErrorType::UuidVersionMismatch { version: 4, schema_version: 1 }));
    assert!(matches!(only_error(v.validate(UuidInput::Str { s: "nope".to_string(), is_python: false }, None).unwrap_err()), ErrorType::UuidParsing { .. }));
    assert!(matches!(only_error(v.validate(UuidInput::Str { s, is_python: true }, Some(true)).unwrap_err()), ErrorType::UuidExactType { class_name } if class_name == "uuid"));
    assert!(matches!(v.validate(UuidInput::Instance, Some(true)), Ok(UuidResult::Instance)));
}

#[test]
fn bytes_bounds() {
    let schema = BytesSchema { strict: false, min_length: Some(2), max_length: None, config_min_length: Some(9), config_max_length: Some(3) };
    let v = match BytesValidator::build(&schema) {
        BuiltBytesValidator::Constrained(v) => v,
        other => panic!("unexpected {:?}", other),
    };
    assert_eq!((v.min_length, v.max_length), (Some(2), Some(3)));
    assert_eq!(v.validation_logic(vec![1, 2]).unwrap(), vec![1, 2]);
    assert!(matches!(only_error(v.validation_logic(vec![1]).unwrap_err()), ErrorType::BytesTooShort { min_length: 2 }));
    assert!(matches!(only_error(v.validation_logic(vec![1, 2, 3, 4]).unwrap_err()), ErrorType::BytesTooLong { max_length: 3 }));
    let plain = BytesSchema { strict: true, min_length: None, max_length: None, config_min_length: None, config_max_length: None };
    assert!(matches!(BytesValidator::build(&plain), BuiltBytesValidator::Strict(_)));
}

#[test]
fn email_validation() {
    let v = EmailValidator { strict: false };
    let p = v.get_email(EmailInput::Str("someone@example.com".to_string())).unwrap();
    assert_eq!(p.text, "someone@example.com");
    assert!(matches!(only_error(v.get_email(EmailInput::Str("not an email".to_string())).unwrap_err()), ErrorType::EmailParsing { .. }));
    assert!(matches!(only_error(v.get_email(EmailInput::Other).unwrap_err()), ErrorType::EmailType));
    assert_eq!(NameEmailValidator.validate(Some("A".to_string()), Some("a@b.c".to_string())), "a@b.c");
    assert_eq!(NameEmailValidator.validate(None, Some("a@b.c".to_string())), "");
}

#[test]
fn enum_build_and_validate() {
    let (v, name) = match BuildEnumValidator::build(vec!["1".to_string(), "2".to_string()], "Color".to_string(), Some("int".to_string()), false).unwrap() {
        BuiltEnumValidator::Int(e) => (e.gv, e.name),
        other => panic!("unexpected {:?}", other),
    };
    assert_eq!(name, "int-enum[Color]");
    assert_eq!(v.expected_repr, "1 or 2");
    assert!(matches!(v.validate::<u8>(true, true, Ok(None), None), Ok(EnumOutcome::Input)));
    assert!(matches!(only_error(v.validate::<u8>(false, true, Ok(None), None).unwrap_err()), ErrorType::IsInstanceOf { class } if class == "Color"));
    assert!(matches!(v.validate::<u8>(false, false, Ok(Some(7)), None), Ok(EnumOutcome::Value(7))));
    assert!(matches!(only_error(v.validate::<u8>(false, false, Ok(None), None).unwrap_err()), ErrorType::Enum { expected } if expected == "1 or 2"));
    let hooked = match BuildEnumValidator::build(vec!["1".to_string()], "C".to_string(), None, true).unwrap() {
        BuiltEnumValidator::Plain(e) => {
            assert_eq!(e.name, "enum[C]");
            e.gv
        }
        other => panic!("unexpected {:?}", other),
    };
    let missing = Some(Ok(MissingOutcome::NotMember { class_name: "C".to_string(), value_repr: "3".to_string() }));
    assert!(matches!(hooked.validate::<u8>(false, false, Ok(None), missing), Err(ValError::Internal(m)) if m == "error in C._missing_: returned 3 instead of None or a valid member"));
    assert!(matches!(only_error(hooked.validate::<u8>(false, false, Ok(None), Some(Ok(MissingOutcome::Nothing))).unwrap_err()), ErrorType::Enum { expected } if expected == "1"));
    assert!(matches!(hooked.validate::<u8>(false, false, Ok(None), Some(Ok(MissingOutcome::Member(4)))), Ok(EnumOutcome::Value(4))));
    assert_eq!(BuildEnumValidator::build(vec![], "C".to_string(), None, false).unwrap_err(), "`members` should have length > 0");
    assert_eq!(BuildEnumValidator::build(vec!["1".to_string()], "C".to_string(), Some("x".to_string()), false).unwrap_err(), "`sub_type` must be one of: 'int', 'str' or None");
}

#[test]
fn walk_filters() {
    let facts = SchemaFacts { has_ref: true, schema_type: Ok(Some("int".to_string())), predicates: vec![Ok(false), Err("boom".to_string())] };
    let f = WalkCoreSchemaFilterBuilder::has_ref().and(WalkCoreSchemaFilterBuilder::has_type("int".to_string())).build();
    assert_eq!(f.matches(&facts), Ok(true));
    let g = WalkCoreSchemaFilterBuilder::predicate(0).or(WalkCoreSchemaFilterBuilder::has_type("str".to_string())).build();
    assert_eq!(g.matches(&facts), Ok(false));
    let h = WalkCoreSchemaFilterBuilder::predicate(0).and(WalkCoreSchemaFilterBuilder::predicate(1)).build();
    assert_eq!(h.matches(&facts), Ok(false));
    let k = WalkCoreSchemaFilterBuilder::predicate(1).or(WalkCoreSchemaFilterBuilder::has_ref()).build();
    assert_eq!(k.matches(&facts), Err("boom".to_string()));
    assert_eq!(walk_action(Some(&f), &facts), Ok(WalkAction::Visit));
    assert_eq!(walk_action(Some(&g), &facts), Ok(WalkAction::WalkParts));
    assert_eq!(walk_action(None, &facts), Ok(WalkAction::WalkParts));
    let walker = WalkCoreSchema::new(Some(f), None);
    assert_eq!(walker.walk(&facts), Ok(WalkAction::Visit));
    assert_eq!(walker.check_ser_schema(Some(&facts)), Ok(Some(WalkAction::WalkParts)));
    assert_eq!(walker.check_ser_schema(None), Ok(None));
}

#[test]
fn simple_validators() {
    assert!(!NullableValidator.validate(true));
    assert!(NullableValidator.validate(false));
    assert!(NeverValidator.validate(true).is_ok());
    assert!(matches!(only_error(NeverValidator.validate(false).unwrap_err()), ErrorType::Never));
    assert!(UnsetSentinelValidator.validate(true).is_ok());
    assert!(matches!(only_error(UnsetSentinelValidator.validate(false).unwrap_err()), ErrorType::UnsetSentinelError));
    assert!(JsonOrPython.validate(InputType::String));
    assert!(!JsonOrPython.validate(InputType::Python));
    assert_eq!(VarKwargsValidator::build("single").unwrap().mode, VarKwargsMode::Single);
    assert!(VarKwargsValidator::build("x").is_err());
    assert_eq!(VarKwargsMode::from_str("typed_dict").unwrap(), VarKwargsMode::TypedDict);
    assert_eq!(VarKwargsMode::from_str("many").unwrap_err(), "Invalid var_kwargs mode: `many`, expected `single` or `typed_dict`");
    assert_eq!(ExtraBehavior::from_str("forbid").unwrap(), ExtraBehavior::Forbid);
    assert_eq!(ExtraBehavior::from_str("x").unwrap_err(), "Invalid extra_behavior: \"x\"");
}

#[test]
fn validation_state_rebinds_and_restores() {
    let mut st = ValidationState::new(Extra::new(None, Some(1u8)), 0);
    assert!(st.strict_or(true));
    let kept = st.rebind_extra(Extra::new(Some(false), None).as_strict());
    assert!(st.strict_or(false));
    assert_eq!(st.extra.context, None);
    st.restore_extra(kept);
    assert_eq!(st.extra.strict, None);
    assert_eq!(st.extra.context, Some(1));
    assert_eq!(st.incr_depth(), 1);
    st.decr_depth();
    assert_eq!(st.recursion_depth, 0);
    let other = st.with_new_extra(Extra::new(Some(true), None));
    assert_eq!(other.extra.strict, Some(true));
}

#[test]
fn build_context_slots() {
    let mut used = AHashSet::new();
    used.insert("A".to_string());
    let mut ctx: BuildContext<String, bool> = BuildContext::new(used);
    assert!(ctx.ref_used("A"));
    assert!(!ctx.ref_used("B"));
    let id = ctx.prepare_slot("A".to_string(), true);
    assert_eq!(id, 0);
    assert_eq!(ctx.find_slot_id_answer("A").unwrap(), (0, true));
    assert_eq!(ctx.find_validator(0).unwrap_err(), "Slots Error: slot 0 not yet filled");
    assert_eq!(ctx.complete_slot(13, "v".to_string()).unwrap_err(), "Slots Error: slot 13 not found");
    assert_eq!(ctx.find_validator(250).unwrap_err(), "Slots Error: slot 250 not found");
    assert!(ctx.complete_slot(0, "v".to_string()).is_ok());
    assert_eq!(ctx.find_validator(0).unwrap(), "v");
    assert_eq!(ctx.find_slot_id_answer("B").unwrap_err(), "Slots Error: ref 'B' not found");
    let mut failing: BuildContext<String, bool> = BuildContext::new(AHashSet::new());
    failing.prepare_slot("Y".to_string(), true);
    failing.complete_slot(0, "y".to_string()).unwrap();
    assert_eq!(failing.into_slots(vec![Err("cannot complete".to_string())]).unwrap_err(), "cannot complete");
    assert_eq!(ctx.into_slots(vec![Ok("v completed".to_string())]).unwrap(), vec!["v completed".to_string()]);
    let mut open: BuildContext<String, bool> = BuildContext::new(AHashSet::new());
    open.prepare_slot("X".to_string(), false);
    assert_eq!(open.into_slots(vec![Ok("unused".to_string())]).unwrap_err(), "Slots Error: slot not yet filled");
}

#[test]
fn model_plan_uses_names_and_order() {
    let field = |n: &str, d: bool| ModelValidatorField { name: n.to_string(), has_default: d };
    let schema = ModelSchema { fields: vec![field("a", false), field("b", true)], extra_behavior: Some("forbid".to_string()), has_extra_validator: false, strict: false, from_attributes: None };
    let v = ModelValidator::build(schema).unwrap();
    let keys = vec![InputKey::Str("b".to_string()), InputKey::Str("x".to_string())];
    let steps = v.plan(&keys, &vec![1, 0]);
    assert_eq!(steps.len(), 3);
    assert!(matches!(&steps[0], Step::Fill { source: Source::Keyword(0), target: Target::Dict(k), .. } if k == "b"));
    assert!(matches!(&steps[1], Step::Fail { error_type: ErrorType::ExtraForbidden, loc: Some(LocItem::S(k)), .. } if k == "x"));
    assert!(matches!(&steps[2], Step::Fail { error_type: ErrorType::Missing, loc: Some(LocItem::S(k)), .. } if k == "a"));
    let bad = ModelSchema { fields: vec![], extra_behavior: Some("ignore".to_string()), has_extra_validator: true, strict: false, from_attributes: None };
    assert_eq!(ModelValidator::build(bad).unwrap_err(), "extra_validator can only be used if extra_behavior=allow");
}

#[test]
fn time_bounds_follow_speedate_order() {
    let t = |h: u8, m: u8, off: Option<i32>| TimeTzValue { time: TimeValue { hour: h, minute: m, second: 0, microsecond: 0 }, offset: off };
    let v = TimeValidator { strict: false, bounds: Bounds { le: None, lt: Some(t(15, 0, Some(3600))), ge: None, gt: None }, has_tz_constraint: false };
    // 15:00Z is later than 15:00+01:00
    match v.validate(Ok(t(15, 0, Some(0))), Ok(())) {
        Err(e) => assert!(matches!(only_error(e), ErrorType::LessThanText { lt_text } if lt_text == "15:00:00+01:00")),
        other => panic!("unexpected {:?}", other),
    }
    assert!(v.validate(Ok(t(13, 59, Some(0))), Ok(())).is_ok());
    let tz = TimeValidator { strict: false, bounds: Bounds { le: None, lt: None, ge: None, gt: None }, has_tz_constraint: true };
    assert!(matches!(tz.validate(Ok(t(1, 0, None)), Err(ValError::Omit)), Err(ValError::Omit)));
    assert!(v.validate(Ok(t(1, 0, None)), Err(ValError::Omit)).is_ok());
}

#[test]
fn bool_float_and_prebuilt_decisions() {
    assert!(matches!(BoolValidator::build(None, Some(true)), BuiltBoolValidator::Strict(_)));
    assert!(matches!(BoolValidator::build(Some(false), Some(true)), BuiltBoolValidator::Lax(_)));
    let f = FloatValidator::build(false, None, Some(false));
    assert!(!f.allow_inf_nan);
    assert!(matches!(only_error(f.check_finite(false).unwrap_err()), ErrorType::FiniteNumber));
    assert!(f.check_finite(true).is_ok());
    assert!(FloatValidator::build(true, None, None).check_finite(false).is_ok());
    assert!(PrebuiltValidator::try_get_from_schema("model", false, Some(true)));
    assert!(!PrebuiltValidator::try_get_from_schema("model", false, None));
    assert!(PrebuiltValidator::try_get_from_schema("dataclass", false, Some(true)));
    assert!(!PrebuiltValidator::try_get_from_schema("dataclass", true, Some(true)));
    assert!(!PrebuiltValidator::try_get_from_schema("list", false, Some(true)));
}

#[test]
fn date_bounds_and_reading() {
    let d = bound_date("2020-01-02").unwrap();
    assert_eq!(d, DateValue { year: 2020, month: 1, day: 2 });
    assert!(bound_date("nope").unwrap_err().starts_with("Unable to parse date nope, error: "));
    let v = DateValidator { strict: false, bounds: Bounds { le: Some(d), lt: None, ge: None, gt: None } };
    assert_eq!(v.validation_comparison(DateValue { year: 2020, month: 1, day: 1 }).unwrap(), DateValue { year: 2020, month: 1, day: 1 });
    match v.validate(DateRead::Date(DateValue { year: 2021, month: 1, day: 1 })) {
        Err(e) => assert!(matches!(only_error(e), ErrorType::LessThanEqualText { le_text } if le_text == "2020-01-02")),
        other => panic!("unexpected {:?}", other),
    }
    let midnight = bound_datetime("2020-01-02T00:00:00").unwrap();
    assert_eq!(date_from_datetime(ValError::Omit, Ok(midnight)).unwrap(), d);
    let noon = bound_datetime("2020-01-02T12:00:00").unwrap();
    assert!(matches!(only_error(date_from_datetime(ValError::Omit, Ok(noon)).unwrap_err()), ErrorType::DateFromDatetimeInexact));
    let read = DateRead::Failed { date_error: ValError::Omit, datetime: Some(Ok(midnight)) };
    assert_eq!(v.validate(read).unwrap(), d);
    let dtv = DateTimeValidator { strict: false, bounds: Bounds { le: None, lt: None, ge: None, gt: Some(noon) } };
    match dtv.validate(Ok(midnight)) {
        Err(e) => assert!(matches!(only_error(e), ErrorType::GreaterThanText { gt_text } if gt_text == "2020-01-02T12:00:00")),
        other => panic!("unexpected {:?}", other),
    }
    assert!(bound_datetime("2020-13-45").unwrap_err().starts_with("Unable to parse datetime 2020-13-45, error: "));
    assert_eq!(tzname(0).into_iter().collect::<String>(), "UTC");
    assert_eq!(tzname(19800).into_iter().collect::<String>(), "+05:30");
    assert_eq!(tzname(-3600).into_iter().collect::<String>(), "-01:00");
}

#[test]
fn optional_and_float_builder() {
    assert!(pydantic_validators::simple::OptionalValidator.validate(false));
    assert!(!pydantic_validators::simple::OptionalValidator.validate(true));
    assert!(pydantic_validators::simple::FloatBuilder::build(false, Some(true), Some(false)).allow_inf_nan);
}

#[test]
fn base64_falls_back_to_the_standard_alphabet() {
    let slash = || DecodeFailure::InvalidByte { byte: 47, message: "bad /".to_string() };
    assert!(needs_standard_alphabet(&Err(slash())));
    assert!(!needs_standard_alphabet(&Ok(vec![1])));
    assert_eq!(base64_result(Err(slash()), Some(Ok(vec![7]))).unwrap(), vec![7]);
    match base64_result(Err(DecodeFailure::InvalidByte { byte: 42, message: "bad *".to_string() }), None) {
        Err(ErrorType::BytesInvalidEncoding { encoding, encoding_error }) => {
            assert_eq!(encoding, "base64");
            assert_eq!(encoding_error, "bad *");
        }
        other => panic!("unexpected {:?}", other),
    }
    assert!(matches!(base64_result(Err(slash()), Some(Err(DecodeFailure::Other { message: "x".to_string() }))), Err(ErrorType::BytesInvalidEncoding { .. })));
}
