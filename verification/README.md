# pydantic_validators

The decisions that pydantic's validators take about their input, written in Verus and
proved against contracts over plain values.

A validator of several values (function arguments, dataclass fields, model fields,
typed-dict entries) first decides, for each value it needs, where the value comes from,
where its validated form goes and where an error about it is located: a plan of steps
(`src/plan.rs`). The inner validations are done by the caller, and `run_plan` gathers
their outcomes into the output, the set fields and the errors. The other validators
(unions, chains, literals, enums, constraints, integers, dates, URLs, UUIDs, bytes,
emails, collections, defaults) decide from what was read of the input and from the
outcomes of their inner validators.

Outside crates do the work that is theirs: `url` parses URLs, `base64` and `hex` decode
bytes, `uuid` parses UUIDs, `speedate` parses, compares and shows dates and times,
`email_address` parses addresses, and `ahash` holds the sets and maps. Each call goes
through a small trusted function whose contract says what the crate does.

Layout:

- `src/errors.rs`: error kinds, locations, line errors and validation outcomes.
- `src/plan.rs`: plans of steps, how a run gathers their outcomes, and the laws of runs.
- `src/arguments.rs`, `src/arguments_v3.rs`, `src/dataclass.rs`, `src/model.rs`,
  `src/model_fields.rs`, `src/typed_dict.rs`: the validators of several values.
- `src/union.rs`, `src/chain.rs`, `src/literal.rs`, `src/enums.rs`, `src/with_default.rs`,
  `src/constraints.rs`, `src/int_validator.rs`, `src/dates.rs`, `src/url_validators.rs`,
  `src/uuid_validator.rs`, `src/bytes.rs`, `src/email.rs`, `src/sequences.rs`,
  `src/is_instance.rs`, `src/simple.rs`: the other validators.
- `src/build_context.rs`, `src/recursion.rs`, `src/validation_state.rs`,
  `src/walk_filter.rs`, `src/config.rs`, `src/lookup.rs`, `src/extra.rs`: building
  validators, recursive references, the state a validation carries, the schema walker,
  config values and key lookup.
- `src/parsed_url.rs`: URLs as the `url` crate parses them.
- `src/text.rs`: numbers written in messages.
- `src/string_set.rs`, `src/index_map.rs`: the `ahash` collections.
- `tests/`: tests on concrete values.
