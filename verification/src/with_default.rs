//! The `default` validator: a value that is missing (or that the inner validator asks
//! to replace) takes the field's default; what happens on errors; and when the default
//! itself is validated.
use vstd::prelude::*;
use crate::errors::{errors_view, errors_with_outer, prefix_errors, LocItem, ValError};
use crate::lookup::str_eq;

verus! {

/// Where the default comes from: nowhere, a value, or a factory (which is given the
/// data validated so far where it takes data).
#[derive(Debug, PartialEq, Eq, Structural, Clone, Copy)]
pub enum DefaultType {
    NoDefault,
    Default,
    DefaultFactory { takes_data: bool },
}

impl DefaultType {
    /// The kind of default of a schema with a `default` (`has_default`), a
    /// `default_factory` (`has_factory`), and `default_factory_takes_data`.
    pub fn new(has_default: bool, has_factory: bool, takes_data: Option<bool>) -> (r: Result<DefaultType, String>)
        ensures
            has_default && has_factory ==> (r matches Err(m) && m@ == "'default' and 'default_factory' cannot be used together"@),
            has_default && !has_factory ==> r == Ok::<DefaultType, String>(DefaultType::Default),
            !has_default && has_factory ==> r == Ok::<DefaultType, String>(
                DefaultType::DefaultFactory { takes_data: takes_data == Some(true) },
            ),
            !has_default && !has_factory ==> r == Ok::<DefaultType, String>(DefaultType::NoDefault),
    {
        if has_default && has_factory {
            Err(String::from_str("'default' and 'default_factory' cannot be used together"))
        } else if has_default {
            Ok(DefaultType::Default)
        } else if has_factory {
            Ok(DefaultType::DefaultFactory { takes_data: takes_data == Some(true) })
        } else {
            Ok(DefaultType::NoDefault)
        }
    }
}

/// What happens when the inner validator fails.
#[derive(Debug, PartialEq, Eq, Structural, Clone, Copy)]
pub enum OnError {
    Raise,
    Omit,
    Default,
}

/// When the default is validated: never, when it is used (`init`), when the schema is
/// built (`definition`), or both.
#[derive(Debug, PartialEq, Eq, Structural, Clone, Copy)]
pub struct ValidateDefaultFlag {
    pub init: bool,
    pub definition: bool,
}

/// The schema's `validate_default`, as it is given.
#[derive(Debug)]
pub enum ValidateDefaultInput {
    Bool(bool),
    Str(String),
    Other,
}

/// The two errors that reading `validate_default` gives.
#[derive(Debug, PartialEq, Eq, Structural, Clone, Copy)]
pub enum OptionErrorKind {
    ValueError,
    TypeError,
}

pub open spec fn validate_default_message() -> Seq<char> {
    "Invalid value for option `validate_default`, should be `'init'`, `'definition'`, `'never'` or a `bool`"@
}

impl ValidateDefaultFlag {
    pub open spec fn never() -> ValidateDefaultFlag {
        ValidateDefaultFlag { init: false, definition: false }
    }

    /// The flag of a boolean: `init` where true, never otherwise.
    pub fn from_bool(mode: bool) -> (r: ValidateDefaultFlag)
        ensures
            r == (ValidateDefaultFlag { init: mode, definition: false }),
    {
        ValidateDefaultFlag { init: mode, definition: false }
    }

    /// Reads the flag: a boolean, or one of the strings `never`, `init`, `definition`; any
    /// other string is a value error, anything else a type error.
    pub fn extract(v: &ValidateDefaultInput) -> (r: Result<ValidateDefaultFlag, (OptionErrorKind, String)>)
        ensures
            match *v {
                ValidateDefaultInput::Bool(b) => r == Ok::<ValidateDefaultFlag, (OptionErrorKind, String)>(
                    ValidateDefaultFlag { init: b, definition: false },
                ),
                ValidateDefaultInput::Str(s) => if s@ == "never"@ {
                    r == Ok::<ValidateDefaultFlag, (OptionErrorKind, String)>(ValidateDefaultFlag::never())
                } else if s@ == "init"@ {
                    r == Ok::<ValidateDefaultFlag, (OptionErrorKind, String)>(
                        ValidateDefaultFlag { init: true, definition: false },
                    )
                } else if s@ == "definition"@ {
                    r == Ok::<ValidateDefaultFlag, (OptionErrorKind, String)>(
                        ValidateDefaultFlag { init: false, definition: true },
                    )
                } else {
                    r matches Err((k, m)) && k == OptionErrorKind::ValueError && m@ == validate_default_message()
                },
                ValidateDefaultInput::Other => r matches Err((k, m)) && k == OptionErrorKind::TypeError && m@
                    == validate_default_message(),
            },
    {
        proof {
            reveal_strlit("never");
            reveal_strlit("init");
            reveal_strlit("definition");
            assert("never"@[0] == 'n' && "init"@[0] == 'i' && "definition"@[0] == 'd');
        }
        match v {
            ValidateDefaultInput::Bool(b) => Ok(Self::from_bool(*b)),
            ValidateDefaultInput::Str(s) => {
                if str_eq(s.as_str(), "never") {
                    Ok(ValidateDefaultFlag { init: false, definition: false })
                } else if str_eq(s.as_str(), "init") {
                    Ok(ValidateDefaultFlag { init: true, definition: false })
                } else if str_eq(s.as_str(), "definition") {
                    Ok(ValidateDefaultFlag { init: false, definition: true })
                } else {
                    Err(
                        (
                            OptionErrorKind::ValueError,
                            String::from_str(
                                "Invalid value for option `validate_default`, should be `'init'`, `'definition'`, `'never'` or a `bool`",
                            ),
                        ),
                    )
                }
            },
            ValidateDefaultInput::Other => Err(
                (
                    OptionErrorKind::TypeError,
                    String::from_str(
                        "Invalid value for option `validate_default`, should be `'init'`, `'definition'`, `'never'` or a `bool`",
                    ),
                ),
            ),
        }
    }
}

#[derive(Debug)]
pub struct WithDefaultValidator {
    pub default: DefaultType,
    pub on_error: OnError,
    pub validate_default: ValidateDefaultFlag,
    /// Whether the default is deep-copied before use (a default value that cannot be hashed).
    pub copy_default: bool,
    pub name: String,
}

/// The schema's `on_error`, where it is one of the three values the schema allows.
pub open spec fn on_error_known(s: Option<String>) -> bool {
    match s {
        Some(s) => s@ == "raise"@ || s@ == "omit"@ || s@ == "default"@,
        None => true,
    }
}

/// What happens after the inner validator's outcome: the result, or the default (the
/// error applies where there is none).
#[derive(Debug)]
pub enum AfterValidation<T> {
    Done(Result<T, ValError>),
    UseDefaultOr(ValError),
}

/// `e` with `outer` in front of the location of each of its line errors.
pub open spec fn with_outer(e: ValError, outer: Option<LocItem>, r: ValError) -> bool {
    match (e, outer) {
        (ValError::LineErrors(es), Some(l)) => r matches ValError::LineErrors(es2) && errors_view(es2@) == errors_with_outer(
            es@,
            l,
        ),
        _ => r == e,
    }
}

impl WithDefaultValidator {
    /// Builds the validator; fails on `on_error = default` without a default.
    pub fn build(
        default: DefaultType,
        on_error: Option<String>,
        inner_name: &str,
        validate_default: Option<ValidateDefaultFlag>,
        default_is_hashable: bool,
    ) -> (r: Result<WithDefaultValidator, String>)
        requires
            on_error_known(on_error),
        ensures
            (on_error matches Some(s) && s@ == "default"@ && default == DefaultType::NoDefault) ==> (r matches Err(m) && m@
                == "'on_error = default' requires a `default` or `default_factory`"@),
            !(on_error matches Some(s) && s@ == "default"@ && default == DefaultType::NoDefault) ==> (r matches Ok(v) && {
                &&& v.default == default
                &&& v.on_error == (match on_error {
                    Some(s) => if s@ == "omit"@ {
                        OnError::Omit
                    } else if s@ == "default"@ {
                        OnError::Default
                    } else {
                        OnError::Raise
                    },
                    None => OnError::Raise,
                })
                &&& v.validate_default == (match validate_default {
                    Some(f) => f,
                    None => ValidateDefaultFlag::never(),
                })
                &&& v.copy_default == (default == DefaultType::Default && !default_is_hashable)
                &&& v.name@ == "default["@ + inner_name@ + "]"@
            }),
    {
        proof {
            reveal_strlit("omit");
            reveal_strlit("default");
            reveal_strlit("raise");
            assert("omit"@[0] == 'o' && "default"@[0] == 'd' && "raise"@[0] == 'r');
        }
        let on_error = match on_error {
            Some(s) => if str_eq(s.as_str(), "omit") {
                OnError::Omit
            } else if str_eq(s.as_str(), "default") {
                if default == DefaultType::NoDefault {
                    return Err(String::from_str("'on_error = default' requires a `default` or `default_factory`"));
                }
                OnError::Default
            } else {
                OnError::Raise
            },
            None => OnError::Raise,
        };
        let mut name = String::from_str("default[");
        name.append(inner_name);
        name.append("]");
        let validate_default = match validate_default {
            Some(f) => f,
            None => ValidateDefaultFlag { init: false, definition: false },
        };
        Ok(
            WithDefaultValidator {
                default,
                on_error,
                validate_default,
                copy_default: default == DefaultType::Default && !default_is_hashable,
                name,
            },
        )
    }

    pub fn has_default(&self) -> (r: bool)
        ensures
            r == (self.default != DefaultType::NoDefault),
    {
        self.default != DefaultType::NoDefault
    }

    pub fn omit_on_error(&self) -> (r: bool)
        ensures
            r == (self.on_error == OnError::Omit),
    {
        self.on_error == OnError::Omit
    }

    /// Whether the default is validated when the schema is built (where there is one).
    pub fn validates_on_build(&self) -> (r: bool)
        ensures
            r == (self.validate_default.definition && self.default != DefaultType::NoDefault),
    {
        self.validate_default.definition && self.has_default()
    }

    /// Whether a default that is used is validated first.
    pub fn validates_on_use(&self) -> (r: bool)
        ensures
            r == self.validate_default.init,
    {
        self.validate_default.init
    }

    /// What the inner validator's `outcome` leads to: a success stands; a request for the
    /// default, or a failure where the default is to be used on error, turns to the
    /// default (with the failure where there is none); on other failures the value is
    /// omitted (`on_error = omit`) or the failure stands.
    pub fn after_validation<T>(&self, outcome: Result<T, ValError>) -> (r: AfterValidation<T>)
        ensures
            match outcome {
                Ok(v) => r == AfterValidation::<T>::Done(Ok(v)),
                Err(ValError::UseDefault) => r == AfterValidation::<T>::UseDefaultOr(ValError::UseDefault),
                Err(e) => match self.on_error {
                    OnError::Raise => r == AfterValidation::<T>::Done(Err(e)),
                    OnError::Default => r == AfterValidation::<T>::UseDefaultOr(e),
                    OnError::Omit => r == AfterValidation::<T>::Done(Err(ValError::Omit)),
                },
            },
    {
        match outcome {
            Ok(v) => AfterValidation::Done(Ok(v)),
            Err(ValError::UseDefault) => AfterValidation::UseDefaultOr(ValError::UseDefault),
            Err(e) => match self.on_error {
                OnError::Raise => AfterValidation::Done(Err(e)),
                OnError::Default => AfterValidation::UseDefaultOr(e),
                OnError::Omit => AfterValidation::Done(Err(ValError::Omit)),
            },
        }
    }

    /// The result once the default was looked for: the default, or `or_error` where there
    /// is none.
    pub fn default_or<T>(&self, default: Option<T>, or_error: ValError) -> (r: Result<T, ValError>)
        ensures
            match default {
                Some(v) => r == Ok::<T, ValError>(v),
                None => r == Err::<T, ValError>(or_error),
            },
    {
        match default {
            Some(v) => Ok(v),
            None => Err(or_error),
        }
    }

    /// The outcome of validating a default that is used: the value, or the failure with
    /// `outer_loc` in front of the location of its line errors.
    pub fn validated_default<T>(&self, outer_loc: Option<LocItem>, outcome: Result<T, ValError>) -> (r: Result<Option<T>, ValError>)
        ensures
            match outcome {
                Ok(v) => r == Ok::<Option<T>, ValError>(Some(v)),
                Err(e) => r matches Err(e2) && with_outer(e, outer_loc, e2),
            },
    {
        match outcome {
            Ok(v) => Ok(Some(v)),
            Err(e) => Err(
                match (e, outer_loc) {
                    (ValError::LineErrors(es), Some(l)) => ValError::LineErrors(prefix_errors(es, &l)),
                    (e, _) => e,
                },
            ),
        }
    }
}

} // verus!
