//! Verified core of the pydantic validators: the decisions each validator takes
//! about its input, stated over plain values.
pub mod errors;
pub mod text;
pub mod string_set;
pub mod index_map;
pub mod lookup;
pub mod plan;
pub mod arguments;
pub mod extra;
pub mod arguments_v3;
pub mod dataclass;
pub mod model_fields;
pub mod typed_dict;
pub mod constraints;
pub mod int_validator;
pub mod model;
pub mod union;
pub mod literal;
pub mod parsed_url;
pub mod url_validators;
pub mod with_default;
pub mod config;
pub mod uuid_validator;
pub mod dates;
pub mod bytes;
pub mod email;
pub mod validation_state;
pub mod build_context;
pub mod enums;
pub mod walk_filter;
pub mod chain;
pub mod simple;
pub mod sequences;
pub mod recursion;
pub mod is_instance;
