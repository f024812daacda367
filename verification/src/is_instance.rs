//! The `is-instance` validator: the input must be an instance of a class; it cannot be
//! checked on JSON input.
use vstd::prelude::*;
use crate::constraints::{is_single_error, root_error};
use crate::errors::{ErrorType, ValError};

verus! {

#[derive(Debug)]
pub struct IsInstanceValidator {
    pub class_repr: String,
    pub name: String,
}

/// How the class shows in errors: the schema's `cls_repr`, else the class's name where it
/// is a type, else its `repr`.
pub open spec fn spec_class_repr(cls_repr: Option<String>, class_name: Option<String>, repr: String) -> Seq<char> {
    match cls_repr {
        Some(s) => s@,
        None => match class_name {
            Some(n) => n@,
            None => repr@,
        },
    }
}

/// The message where the class cannot be checked against.
pub open spec fn bad_class_message() -> Seq<char> {
    "'cls' must be valid as the first argument to 'isinstance'"@
}

/// The message where the input is JSON.
pub open spec fn json_message() -> Seq<char> {
    "Cannot check isinstance when validating from json,use a JsonOrPython validator instead."@
}

impl IsInstanceValidator {
    /// Builds the validator: fails where a trial `isinstance` call with the class failed
    /// (`class_usable`); otherwise the class's representation (from `cls_repr`, the class's
    /// name where it is a type, or its `repr`) and the name `is-instance[..]`.
    pub fn build(class_usable: bool, cls_repr: Option<String>, class_name: Option<String>, repr: String) -> (r: Result<
        IsInstanceValidator,
        String,
    >)
        ensures
            !class_usable ==> (r matches Err(m) && m@ == bad_class_message()),
            class_usable ==> (r matches Ok(v) && v.class_repr@ == spec_class_repr(cls_repr, class_name, repr) && v.name@
                == "is-instance["@ + spec_class_repr(cls_repr, class_name, repr) + "]"@),
    {
        if !class_usable {
            return Err(String::from_str("'cls' must be valid as the first argument to 'isinstance'"));
        }
        let class_repr = match cls_repr {
            Some(s) => s,
            None => match class_name {
                Some(n) => n,
                None => repr,
            },
        };
        let mut name = String::from_str("is-instance[");
        name.append(class_repr.as_str());
        name.append("]");
        Ok(IsInstanceValidator { class_repr, name })
    }

    /// Validates an input: JSON input cannot be checked; otherwise the outcome of Python's
    /// `isinstance` decides (`is_instance`, or the error it raised).
    pub fn validate(&self, json_input: bool, is_instance: Result<bool, ValError>) -> (r: Result<(), ValError>)
        ensures
            json_input ==> (r matches Err(ValError::Internal(m)) && m@ == json_message()),
            !json_input ==> match is_instance {
                Ok(true) => r is Ok,
                Ok(false) => r matches Err(e) && is_single_error(e, ErrorType::IsInstanceOf { class: self.class_repr }),
                Err(e) => r == Err::<(), ValError>(e),
            },
    {
        if json_input {
            return Err(
                ValError::Internal(
                    String::from_str("Cannot check isinstance when validating from json,use a JsonOrPython validator instead."),
                ),
            );
        }
        match is_instance {
            Ok(true) => Ok(()),
            Ok(false) => Err(root_error(ErrorType::IsInstanceOf { class: self.class_repr.clone() })),
            Err(e) => Err(e),
        }
    }
}

} // verus!
