//! Validators whose decision is a single test of the input or of the schema: `nullable`,
//! `never`, `unset-sentinel`, `json-or-python`, `bool`, `float` (whether a float that is
//! not finite passes), the mode of `var_kwargs`, and whether a prebuilt validator is used.
use vstd::prelude::*;
use crate::constraints::{is_single_error, root_error};
use crate::errors::{ErrorType, ValError};
use crate::lookup::str_eq;

verus! {

/// The `nullable` validator.
#[derive(Debug)]
pub struct NullableValidator;

impl NullableValidator {
    /// What the validator does with an input: `None` passes as `None`; anything else goes
    /// to the inner validator (whether it does).
    pub fn validate(&self, input_is_none: bool) -> (delegate: bool)
        ensures
            delegate == !input_is_none,
    {
        !input_is_none
    }
}

/// The `optional` validator.
#[derive(Debug)]
pub struct OptionalValidator;

impl OptionalValidator {
    /// What the validator does with an input: `None` passes as `None`; anything else goes
    /// to the inner validator (whether it does).
    pub fn validate(&self, input_is_none: bool) -> (delegate: bool)
        ensures
            delegate == !input_is_none,
    {
        !input_is_none
    }
}

/// The `never` validator.
#[derive(Debug)]
pub struct NeverValidator;

impl NeverValidator {
    /// Only the "undefined" marker passes.
    pub fn validate(&self, input_is_undefined: bool) -> (r: Result<(), ValError>)
        ensures
            input_is_undefined ==> r is Ok,
            !input_is_undefined ==> (r matches Err(e) && is_single_error(e, ErrorType::Never)),
    {
        if input_is_undefined {
            Ok(())
        } else {
            Err(root_error(ErrorType::Never))
        }
    }
}

/// The `unset-sentinel` validator.
#[derive(Debug)]
pub struct UnsetSentinelValidator;

impl UnsetSentinelValidator {
    /// Only the "unset" sentinel passes.
    pub fn validate(&self, input_is_sentinel: bool) -> (r: Result<(), ValError>)
        ensures
            input_is_sentinel ==> r is Ok,
            !input_is_sentinel ==> (r matches Err(e) && is_single_error(e, ErrorType::UnsetSentinelError)),
    {
        if input_is_sentinel {
            Ok(())
        } else {
            Err(root_error(ErrorType::UnsetSentinelError))
        }
    }
}

/// Where an input comes from.
#[derive(Debug, PartialEq, Eq, Structural, Clone, Copy)]
pub enum InputType {
    Python,
    Json,
    String,
}

/// The `json-or-python` validator.
#[derive(Debug)]
pub struct JsonOrPython;

impl JsonOrPython {
    /// Which of its validators applies (whether the JSON one): the JSON one for JSON and
    /// string input, the Python one for Python input.
    pub fn validate(&self, t: InputType) -> (r: bool)
        ensures
            r == (t == InputType::Json || t == InputType::String),
    {
        match t {
            InputType::Json => true,
            InputType::String => true,
            InputType::Python => false,
        }
    }
}

#[derive(Debug, PartialEq, Eq, Structural, Clone, Copy)]
pub enum VarKwargsMode {
    Single,
    TypedDict,
}

impl VarKwargsMode {
    /// Reads the mode from its name.
    pub fn from_str(s: &str) -> (r: Result<VarKwargsMode, String>)
        ensures
            s@ == "single"@ ==> r == Ok::<VarKwargsMode, String>(VarKwargsMode::Single),
            s@ == "typed_dict"@ ==> r == Ok::<VarKwargsMode, String>(VarKwargsMode::TypedDict),
            s@ != "single"@ && s@ != "typed_dict"@ ==> (r matches Err(m) && m@ == "Invalid var_kwargs mode: `"@ + s@
                + "`, expected `single` or `typed_dict`"@),
    {
        proof {
            reveal_strlit("single");
            reveal_strlit("typed_dict");
            assert("single"@[0] == 's' && "typed_dict"@[0] == 't');
        }
        if str_eq(s, "single") {
            Ok(VarKwargsMode::Single)
        } else if str_eq(s, "typed_dict") {
            Ok(VarKwargsMode::TypedDict)
        } else {
            let mut m = String::from_str("Invalid var_kwargs mode: `");
            m.append(s);
            m.append("`, expected `single` or `typed_dict`");
            Err(m)
        }
    }
}

/// The `var_kwargs` validator: the mode in which it takes the extra keyword arguments.
#[derive(Debug)]
pub struct VarKwargsValidator {
    pub mode: VarKwargsMode,
}

impl VarKwargsValidator {
    /// Builds the validator from the schema's `mode`.
    pub fn build(mode: &str) -> (r: Result<VarKwargsValidator, String>)
        ensures
            mode@ == "single"@ ==> (r matches Ok(v) && v.mode == VarKwargsMode::Single),
            mode@ == "typed_dict"@ ==> (r matches Ok(v) && v.mode == VarKwargsMode::TypedDict),
            mode@ != "single"@ && mode@ != "typed_dict"@ ==> (r matches Err(m) && m@ == "Invalid var_kwargs mode: `"@
                + mode@ + "`, expected `single` or `typed_dict`"@),
    {
        match VarKwargsMode::from_str(mode) {
            Ok(m) => Ok(VarKwargsValidator { mode: m }),
            Err(e) => Err(e),
        }
    }
}

} // verus!

verus! {

/// The value that the schema sets, else the one that the config sets, else `default`.
pub open spec fn schema_or_config(schema: Option<bool>, config: Option<bool>, default: bool) -> bool {
    match schema {
        Some(b) => b,
        None => match config {
            Some(b) => b,
            None => default,
        },
    }
}

fn schema_or_config_exec(schema: Option<bool>, config: Option<bool>, default: bool) -> (r: bool)
    ensures
        r == schema_or_config(schema, config, default),
{
    match schema {
        Some(b) => b,
        None => match config {
            Some(b) => b,
            None => default,
        },
    }
}

/// The lax `bool` validator.
#[derive(Debug)]
pub struct BoolValidator;

/// The strict `bool` validator.
#[derive(Debug)]
pub struct StrictBoolValidator;

/// What a `bool` schema builds.
#[derive(Debug)]
pub enum BuiltBoolValidator {
    Lax(BoolValidator),
    Strict(StrictBoolValidator),
}

impl BoolValidator {
    /// Builds the strict validator where the schema says so, else where the config does;
    /// otherwise the lax one.
    pub fn build(schema_strict: Option<bool>, config_strict: Option<bool>) -> (r: BuiltBoolValidator)
        ensures
            (r is Strict) == schema_or_config(schema_strict, config_strict, false),
    {
        if schema_or_config_exec(schema_strict, config_strict, false) {
            BuiltBoolValidator::Strict(StrictBoolValidator)
        } else {
            BuiltBoolValidator::Lax(BoolValidator)
        }
    }
}

/// The `float` validator: whether it is strict, and whether it lets infinities and NaN pass.
#[derive(Debug)]
pub struct FloatValidator {
    pub strict: bool,
    pub allow_inf_nan: bool,
}

impl FloatValidator {
    /// Builds the validator; infinities and NaN pass unless the schema (or else the
    /// config) says otherwise.
    pub fn build(strict: bool, schema_allow_inf_nan: Option<bool>, config_allow_inf_nan: Option<bool>) -> (r: Self)
        ensures
            r.strict == strict,
            r.allow_inf_nan == schema_or_config(schema_allow_inf_nan, config_allow_inf_nan, true),
    {
        FloatValidator { strict, allow_inf_nan: schema_or_config_exec(schema_allow_inf_nan, config_allow_inf_nan, true) }
    }

    /// Checks a float that was read (whether it is finite): where infinities and NaN are not
    /// allowed, a float that is not finite is an error.
    pub fn check_finite(&self, is_finite: bool) -> (r: Result<(), ValError>)
        ensures
            !self.allow_inf_nan && !is_finite ==> (r matches Err(e) && is_single_error(e, ErrorType::FiniteNumber)),
            self.allow_inf_nan || is_finite ==> r is Ok,
    {
        if !self.allow_inf_nan && !is_finite {
            return Err(root_error(ErrorType::FiniteNumber));
        }
        Ok(())
    }
}

/// The builder of `float` validators.
#[derive(Debug)]
pub struct FloatBuilder;

impl FloatBuilder {
    /// Builds the `float` validator (see `FloatValidator::build`).
    pub fn build(strict: bool, schema_allow_inf_nan: Option<bool>, config_allow_inf_nan: Option<bool>) -> (r: FloatValidator)
        ensures
            r.strict == strict,
            r.allow_inf_nan == schema_or_config(schema_allow_inf_nan, config_allow_inf_nan, true),
    {
        FloatValidator::build(strict, schema_allow_inf_nan, config_allow_inf_nan)
    }
}

/// The validator that a complete class already holds, used in place of building one.
#[derive(Debug)]
pub struct PrebuiltValidator;

impl PrebuiltValidator {
    /// Whether the prebuilt validator of a class is used for a schema of the type `type_`:
    /// for models, typed dicts and dataclasses (but not for a dataclass with a generic
    /// origin, whose validator is cached on the unparametrized class), and only where the
    /// class says it is complete (`complete`: its `__pydantic_complete__`, where that is a
    /// boolean).
    pub fn try_get_from_schema(type_: &str, has_generic_origin: bool, complete: Option<bool>) -> (r: bool)
        ensures
            r == ((type_@ == "model"@ || type_@ == "typed-dict"@ || type_@ == "dataclass"@) && !(type_@ == "dataclass"@
                && has_generic_origin) && complete == Some(true)),
    {
        let is_dataclass = str_eq(type_, "dataclass");
        if !(str_eq(type_, "model") || str_eq(type_, "typed-dict") || is_dataclass) || (is_dataclass && has_generic_origin) {
            return false;
        }
        match complete {
            Some(b) => b,
            None => false,
        }
    }
}

} // verus!
