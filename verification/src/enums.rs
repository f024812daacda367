//! The `enum` validators: an exact member passes; in strict mode nothing else does;
//! otherwise the value is looked up among the members' values, and then given to the
//! enum's `_missing_` hook where it has one.
use vstd::prelude::*;
use crate::constraints::{is_single_error, root_error};
use crate::errors::{ErrorType, ValError};
use crate::literal::{expected_repr_name, spec_expected_repr};
use crate::lookup::str_eq;

verus! {

/// Which kind of enum validator a schema builds.
#[derive(Debug, PartialEq, Eq, Structural, Clone, Copy)]
pub enum EnumKind {
    Plain,
    Int,
    Str,
    Float,
}

/// What the enum validators of every kind share: how the members' values show, how the
/// class shows, and whether the enum has a `_missing_` hook.
#[derive(Debug)]
pub struct GeneralEnumValidator {
    pub expected_repr: String,
    pub class_repr: String,
    pub has_missing_func: bool,
}

/// The validator of a plain enum.
#[derive(Debug)]
pub struct PlainEnumValidator {
    pub gv: GeneralEnumValidator,
    pub name: String,
}

/// The validator of an `int` enum.
#[derive(Debug)]
pub struct IntEnumValidator {
    pub gv: GeneralEnumValidator,
    pub name: String,
}

/// The validator of a `str` enum.
#[derive(Debug)]
pub struct StrEnumValidator {
    pub gv: GeneralEnumValidator,
    pub name: String,
}

/// The validator of a `float` enum.
#[derive(Debug)]
pub struct FloatEnumValidator {
    pub gv: GeneralEnumValidator,
    pub name: String,
}

/// What an enum schema builds.
#[derive(Debug)]
pub enum BuiltEnumValidator {
    Plain(PlainEnumValidator),
    Int(IntEnumValidator),
    Str(StrEnumValidator),
    Float(FloatEnumValidator),
}

impl BuiltEnumValidator {
    pub open spec fn kind(self) -> EnumKind {
        match self {
            BuiltEnumValidator::Plain(_) => EnumKind::Plain,
            BuiltEnumValidator::Int(_) => EnumKind::Int,
            BuiltEnumValidator::Str(_) => EnumKind::Str,
            BuiltEnumValidator::Float(_) => EnumKind::Float,
        }
    }

    pub open spec fn gv(self) -> GeneralEnumValidator {
        match self {
            BuiltEnumValidator::Plain(v) => v.gv,
            BuiltEnumValidator::Int(v) => v.gv,
            BuiltEnumValidator::Str(v) => v.gv,
            BuiltEnumValidator::Float(v) => v.gv,
        }
    }

    pub open spec fn name(self) -> String {
        match self {
            BuiltEnumValidator::Plain(v) => v.name,
            BuiltEnumValidator::Int(v) => v.name,
            BuiltEnumValidator::Str(v) => v.name,
            BuiltEnumValidator::Float(v) => v.name,
        }
    }
}

/// The builder of enum validators.
#[derive(Debug)]
pub struct BuildEnumValidator;

/// The kind that the schema's `sub_type` names, or `None` for an unknown one.
pub open spec fn spec_enum_kind(sub_type: Option<String>) -> Option<EnumKind> {
    match sub_type {
        None => Some(EnumKind::Plain),
        Some(s) => if s@ == "int"@ {
            Some(EnumKind::Int)
        } else if s@ == "str"@ {
            Some(EnumKind::Str)
        } else if s@ == "float"@ {
            Some(EnumKind::Float)
        } else {
            None
        },
    }
}

/// The prefix of the name of a validator of the kind `k`.
pub open spec fn kind_prefix(k: EnumKind) -> Seq<char> {
    match k {
        EnumKind::Plain => "enum"@,
        EnumKind::Int => "int-enum"@,
        EnumKind::Str => "str-enum"@,
        EnumKind::Float => "float-enum"@,
    }
}

impl BuildEnumValidator {
    /// Builds the validator from how the members' values show (`repr_args`), the class's
    /// representation, the schema's `sub_type` and whether it has a `missing_func`.
    pub fn build(repr_args: Vec<String>, class_repr: String, sub_type: Option<String>, has_missing_func: bool) -> (r: Result<
        BuiltEnumValidator,
        String,
    >)
        ensures
            repr_args.len() == 0 ==> (r matches Err(m) && m@ == "`members` should have length > 0"@),
            repr_args.len() > 0 && spec_enum_kind(sub_type) is None ==> (r matches Err(m) && m@
                == "`sub_type` must be one of: 'int', 'str' or None"@),
            repr_args.len() > 0 ==> (spec_enum_kind(sub_type) matches Some(k) ==> (r matches Ok(v) && v.kind() == k
                && v.gv().expected_repr@ == spec_expected_repr(repr_args@) && v.gv().class_repr == class_repr
                && v.gv().has_missing_func == has_missing_func && v.name()@ == kind_prefix(k) + "["@ + class_repr@ + "]"@)),
    {
        if repr_args.len() == 0 {
            return Err(String::from_str("`members` should have length > 0"));
        }
        proof {
            reveal_strlit("int");
            reveal_strlit("str");
            reveal_strlit("float");
            assert("int"@[0] == 'i' && "str"@[0] == 's' && "float"@[0] == 'f');
        }
        let kind = match &sub_type {
            None => EnumKind::Plain,
            Some(s) => if str_eq(s.as_str(), "int") {
                EnumKind::Int
            } else if str_eq(s.as_str(), "str") {
                EnumKind::Str
            } else if str_eq(s.as_str(), "float") {
                EnumKind::Float
            } else {
                return Err(String::from_str("`sub_type` must be one of: 'int', 'str' or None"));
            },
        };
        let (expected_repr, _) = expected_repr_name(repr_args, "");
        let mut name = String::from_str(
            match kind {
                EnumKind::Plain => "enum",
                EnumKind::Int => "int-enum",
                EnumKind::Str => "str-enum",
                EnumKind::Float => "float-enum",
            },
        );
        name.append("[");
        name.append(class_repr.as_str());
        name.append("]");
        let gv = GeneralEnumValidator { expected_repr, class_repr, has_missing_func };
        Ok(
            match kind {
                EnumKind::Plain => BuiltEnumValidator::Plain(PlainEnumValidator { gv, name }),
                EnumKind::Int => BuiltEnumValidator::Int(IntEnumValidator { gv, name }),
                EnumKind::Str => BuiltEnumValidator::Str(StrEnumValidator { gv, name }),
                EnumKind::Float => BuiltEnumValidator::Float(FloatEnumValidator { gv, name }),
            },
        )
    }
}

/// What the enum's `_missing_` hook gave: a member of the class, `None`, or something else
/// (with the class's name and the value's representation for the message).
#[derive(Debug)]
pub enum MissingOutcome<T> {
    Member(T),
    /// `None`: the hook found no member.
    Nothing,
    NotMember { class_name: String, value_repr: String },
}

/// What validating an enum value gives.
#[derive(Debug)]
pub enum EnumOutcome<T> {
    /// The input itself, an exact member.
    Input,
    Value(T),
}

/// The message where `_missing_` gave something that is not a member.
pub open spec fn missing_message(class_name: Seq<char>, value_repr: Seq<char>) -> Seq<char> {
    "error in "@ + class_name + "._missing_: returned "@ + value_repr + " instead of None or a valid member"@
}

impl GeneralEnumValidator {
    /// Validates an input: an exact member passes; in strict mode anything else is an
    /// instance error; otherwise the member whose value it is (`lookup`), else what the
    /// `_missing_` hook gave (where there is one), else an enum error listing the values.
    pub fn validate<T>(
        &self,
        is_exact_instance: bool,
        strict: bool,
        lookup: Result<Option<T>, ValError>,
        missing: Option<Result<MissingOutcome<T>, ValError>>,
    ) -> (r: Result<EnumOutcome<T>, ValError>)
        requires
            !is_exact_instance && !strict && lookup == Ok::<Option<T>, ValError>(None) && self.has_missing_func
                ==> missing is Some,
        ensures
            is_exact_instance ==> r matches Ok(EnumOutcome::Input),
            !is_exact_instance && strict ==> (r matches Err(e) && is_single_error(
                e,
                ErrorType::IsInstanceOf { class: self.class_repr },
            )),
            !is_exact_instance && !strict ==> match lookup {
                Err(e) => r == Err::<EnumOutcome<T>, ValError>(e),
                Ok(Some(v)) => r == Ok::<EnumOutcome<T>, ValError>(EnumOutcome::Value(v)),
                Ok(None) => if self.has_missing_func {
                    match missing->Some_0 {
                        Ok(MissingOutcome::Member(v)) => r == Ok::<EnumOutcome<T>, ValError>(EnumOutcome::Value(v)),
                        Ok(MissingOutcome::Nothing) => r matches Err(e) && is_single_error(
                            e,
                            ErrorType::Enum { expected: self.expected_repr },
                        ),
                        Ok(MissingOutcome::NotMember { class_name, value_repr }) => r matches Err(ValError::Internal(m))
                            && m@ == missing_message(class_name@, value_repr@),
                        Err(e) => r == Err::<EnumOutcome<T>, ValError>(e),
                    }
                } else {
                    r matches Err(e) && is_single_error(e, ErrorType::Enum { expected: self.expected_repr })
                },
            },
    {
        if is_exact_instance {
            return Ok(EnumOutcome::Input);
        }
        if strict {
            return Err(root_error(ErrorType::IsInstanceOf { class: self.class_repr.clone() }));
        }
        match lookup {
            Err(e) => Err(e),
            Ok(Some(v)) => Ok(EnumOutcome::Value(v)),
            Ok(None) => if self.has_missing_func {
                match missing {
                    Some(Ok(MissingOutcome::Member(v))) => Ok(EnumOutcome::Value(v)),
                    Some(Ok(MissingOutcome::Nothing)) => Err(root_error(ErrorType::Enum { expected: self.expected_repr.clone() })),
                    Some(Ok(MissingOutcome::NotMember { class_name, value_repr })) => {
                        let mut m = String::from_str("error in ");
                        m.append(class_name.as_str());
                        m.append("._missing_: returned ");
                        m.append(value_repr.as_str());
                        m.append(" instead of None or a valid member");
                        Err(ValError::Internal(m))
                    },
                    Some(Err(e)) => Err(e),
                    None => Err(root_error(ErrorType::Enum { expected: self.expected_repr.clone() })),
                }
            } else {
                Err(root_error(ErrorType::Enum { expected: self.expected_repr.clone() }))
            },
        }
    }
}

} // verus!
