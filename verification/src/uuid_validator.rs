//! The `uuid` validator: a UUID instance passes; otherwise (outside strict mode on
//! Python input) a string is parsed and its version checked.
use vstd::prelude::*;
use uuid::Uuid;
use crate::constraints::{root_error};
use crate::errors::{errors_view, ErrorType, LocItem, ValError};

verus! {

#[derive(Debug, PartialEq, Eq, Structural, Clone, Copy)]
pub enum Version {
    UUIDv1,
    UUIDv3,
    UUIDv4,
    UUIDv5,
}

pub open spec fn version_number(v: Version) -> usize {
    match v {
        Version::UUIDv1 => 1,
        Version::UUIDv3 => 3,
        Version::UUIDv4 => 4,
        Version::UUIDv5 => 5,
    }
}

impl Version {
    /// The version's number.
    pub fn to_usize(self) -> (r: usize)
        ensures
            r == version_number(self),
    {
        match self {
            Version::UUIDv1 => 1,
            Version::UUIDv3 => 3,
            Version::UUIDv4 => 4,
            Version::UUIDv5 => 5,
        }
    }

    /// The version with the number `u` (1, 3, 4 or 5).
    pub fn from_u8(u: u8) -> (r: Version)
        requires
            u == 1 || u == 3 || u == 4 || u == 5,
        ensures
            version_number(r) == u,
    {
        if u == 1 {
            Version::UUIDv1
        } else if u == 3 {
            Version::UUIDv3
        } else if u == 4 {
            Version::UUIDv4
        } else {
            Version::UUIDv5
        }
    }
}

/// A UUID that `Uuid::parse_str` read: its 128-bit value and its version number.
#[derive(Debug)]
pub struct ParsedUuid {
    pub value: u128,
    pub version: usize,
}

/// What `Uuid::parse_str` gives for a string, as plain values.
pub enum UuidOutcome {
    Parsed { value: u128, version: usize },
    Failed { message: Seq<char> },
}

pub open spec fn uuid_outcome_of(r: Result<ParsedUuid, String>) -> UuidOutcome {
    match r {
        Ok(p) => UuidOutcome::Parsed { value: p.value, version: p.version },
        Err(m) => UuidOutcome::Failed { message: m@ },
    }
}

/// What `Uuid::parse_str` gives for a string.
pub uninterp spec fn uuid_parsed(s: Seq<char>) -> UuidOutcome;

/// `Uuid::parse_str`, with `as_u128` and `get_version_num` of the UUID: the value and
/// its version (the high nibble of its seventh byte), or the error's message. What it
/// gives is named, as a function of the string alone.
#[verifier::external_body]
fn parse_uuid(s: &str) -> (r: Result<ParsedUuid, String>)
    ensures
        uuid_outcome_of(r) == uuid_parsed(s@),
        r matches Ok(p) ==> p.version == ((p.value >> 76u128) & 15u128) as usize,
{
    match Uuid::parse_str(s) {
        Ok(u) => Ok(ParsedUuid { value: u.as_u128(), version: u.get_version_num() }),
        Err(e) => Err(e.to_string()),
    }
}

/// The error that the value is no UUID instance (in strict mode).
pub open spec fn exact_type_error(r: Result<UuidResult, ValError>) -> bool {
    r matches Err(ValError::LineErrors(es)) && es@.len() == 1 && es@[0].loc@.len() == 0 && (es@[0].error_type matches ErrorType::UuidExactType {
        class_name,
    } && class_name@ == "uuid"@)
}

#[derive(Debug)]
pub struct UuidValidator {
    pub strict: bool,
    pub version: Option<Version>,
}

/// The value that the uuid validator is given.
#[derive(Debug)]
pub enum UuidInput {
    /// An instance of `uuid.UUID`.
    Instance,
    /// A string (exactly), and whether it came from Python (not JSON).
    Str { s: String, is_python: bool },
    /// Anything else, and whether it came from Python, with the error of reading it as a
    /// string.
    Other { is_python: bool, error: ValError },
}

/// What the validator gives: the instance as it is, or the UUID that was parsed.
#[derive(Debug)]
pub enum UuidResult {
    Instance,
    Parsed(ParsedUuid),
}

impl UuidValidator {
    /// Builds the validator, with the version (1, 3, 4 or 5) that the schema requires.
    pub fn build(version: Option<u8>, strict: bool) -> (r: UuidValidator)
        requires
            version matches Some(u) ==> u == 1 || u == 3 || u == 4 || u == 5,
        ensures
            r.strict == strict,
            match version {
                Some(u) => r.version matches Some(v) && version_number(v) == u,
                None => r.version is None,
            },
    {
        let version = match version {
            Some(u) => Some(Version::from_u8(u)),
            None => None,
        };
        UuidValidator { strict, version }
    }

    /// Validates `input`, in strict mode where the validation asks for it (or else where
    /// the schema does): an instance passes; in strict mode other Python values are not
    /// accepted; otherwise a string is parsed, and must have the version that the schema
    /// requires (where it requires one).
    pub fn validate(&self, input: UuidInput, strict: Option<bool>) -> (r: Result<UuidResult, ValError>)
        ensures
            match input {
                UuidInput::Instance => r matches Ok(UuidResult::Instance),
                UuidInput::Str { s, is_python } => if crate::int_validator::unwrap_or(strict, self.strict) && is_python {
exact_type_error(r)
                } else {
                    match uuid_parsed(s@) {
                        UuidOutcome::Parsed { value, version } => match self.version {
                            Some(v) => if version == version_number(v) {
                                r matches Ok(UuidResult::Parsed(p)) && p.value == value && p.version == version
                            } else {
                                r matches Err(ValError::LineErrors(es)) && errors_view(es@) == seq![
                                    (
                                        ErrorType::UuidVersionMismatch { version, schema_version: version_number(v) },
                                        Seq::<LocItem>::empty(),
                                    ),
                                ]
                            },
                            None => r matches Ok(UuidResult::Parsed(p)) && p.value == value && p.version == version,
                        },
                        UuidOutcome::Failed { message } => r matches Err(ValError::LineErrors(es)) && es@.len() == 1
                            && es@[0].loc@.len() == 0 && (es@[0].error_type matches ErrorType::UuidParsing { error } && error@
                            == message),
                    }
                },
                UuidInput::Other { is_python, error } => if crate::int_validator::unwrap_or(strict, self.strict)
                    && is_python {
exact_type_error(r)
                } else {
                    r == Err::<UuidResult, ValError>(error)
                },
            },
    {
        let strict = match strict {
            Some(b) => b,
            None => self.strict,
        };
        match input {
            UuidInput::Instance => Ok(UuidResult::Instance),
            UuidInput::Str { s, is_python } => {
                if strict && is_python {
                    return Err(root_error(ErrorType::UuidExactType { class_name: String::from_str("uuid") }));
                }
                match parse_uuid(s.as_str()) {
                    Ok(p) => match self.version {
                        Some(v) => {
                            let v2 = v.to_usize();
                            if p.version == v2 {
                                Ok(UuidResult::Parsed(p))
                            } else {
                                Err(root_error(ErrorType::UuidVersionMismatch { version: p.version, schema_version: v2 }))
                            }
                        },
                        None => Ok(UuidResult::Parsed(p)),
                    },
                    Err(m) => {
                        let e = root_error(ErrorType::UuidParsing { error: m });
                        Err(e)
                    },
                }
            },
            UuidInput::Other { is_python, error } => {
                if strict && is_python {
                    return Err(root_error(ErrorType::UuidExactType { class_name: String::from_str("uuid") }));
                }
                Err(error)
            },
        }
    }

    /// The name of the validator.
    pub fn get_name(&self) -> (r: &'static str)
        ensures
            r@ == "uuid"@,
    {
        "uuid"
    }
}

} // verus!
