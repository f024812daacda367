//! The `bytes` validators: the plain one, the strict one, and the one with length bounds.
use vstd::prelude::*;
use crate::constraints::{is_single_error, root_error};
use crate::errors::{ErrorType, ValError};

verus! {

/// The bounds of a bytes schema: its own, or else the config's.
#[derive(Debug)]
pub struct BytesSchema {
    pub strict: bool,
    pub min_length: Option<usize>,
    pub max_length: Option<usize>,
    pub config_min_length: Option<usize>,
    pub config_max_length: Option<usize>,
}

#[derive(Debug)]
pub struct BytesConstrainedValidator {
    pub strict: bool,
    pub min_length: Option<usize>,
    pub max_length: Option<usize>,
}

/// The lax bytes validator.
#[derive(Debug)]
pub struct BytesValidator;

/// The strict bytes validator.
#[derive(Debug)]
pub struct StrictBytesValidator;

/// The validator that a bytes schema builds.
#[derive(Debug)]
pub enum BuiltBytesValidator {
    Lax(BytesValidator),
    Strict(StrictBytesValidator),
    Constrained(BytesConstrainedValidator),
}

pub open spec fn or_else(a: Option<usize>, b: Option<usize>) -> Option<usize> {
    match a {
        Some(v) => Some(v),
        None => b,
    }
}

impl BytesValidator {
    /// Builds the validator of `schema`: constrained where it (or the config) sets a length
    /// bound, else strict or lax.
    pub fn build(schema: &BytesSchema) -> (r: BuiltBytesValidator)
        ensures
            (schema.min_length is Some || schema.max_length is Some || schema.config_min_length is Some
                || schema.config_max_length is Some) ==> (r matches BuiltBytesValidator::Constrained(v) && v.strict == schema.strict
                && v.min_length == or_else(schema.min_length, schema.config_min_length) && v.max_length == or_else(
                schema.max_length,
                schema.config_max_length,
            )),
            !(schema.min_length is Some || schema.max_length is Some || schema.config_min_length is Some
                || schema.config_max_length is Some) ==> (if schema.strict {
                r is Strict
            } else {
                r is Lax
            }),
    {
        if schema.min_length.is_some() || schema.max_length.is_some() || schema.config_min_length.is_some()
            || schema.config_max_length.is_some() {
            let min_length = match schema.min_length {
                Some(v) => Some(v),
                None => schema.config_min_length,
            };
            let max_length = match schema.max_length {
                Some(v) => Some(v),
                None => schema.config_max_length,
            };
            BuiltBytesValidator::Constrained(BytesConstrainedValidator { strict: schema.strict, min_length, max_length })
        } else if schema.strict {
            BuiltBytesValidator::Strict(StrictBytesValidator)
        } else {
            BuiltBytesValidator::Lax(BytesValidator)
        }
    }
}


impl BytesConstrainedValidator {
    /// Checks the length of `bytes`: not under the minimum, then not over the maximum.
    pub fn validation_logic(&self, bytes: Vec<u8>) -> (r: Result<Vec<u8>, ValError>)
        ensures
            self.min_length matches Some(m) && bytes.len() < m ==> (r matches Err(e) && is_single_error(
                e,
                ErrorType::BytesTooShort { min_length: self.min_length->Some_0 },
            )),
            !(self.min_length matches Some(m) && bytes.len() < m) && (self.max_length matches Some(m) && bytes.len() > m)
                ==> (r matches Err(e) && is_single_error(e, ErrorType::BytesTooLong { max_length: self.max_length->Some_0 })),
            !(self.min_length matches Some(m) && bytes.len() < m) && !(self.max_length matches Some(m) && bytes.len() > m)
                ==> r == Ok::<Vec<u8>, ValError>(bytes),
    {
        if let Some(m) = self.min_length {
            if bytes.len() < m {
                return Err(root_error(ErrorType::BytesTooShort { min_length: m }));
            }
        }
        if let Some(m) = self.max_length {
            if bytes.len() > m {
                return Err(root_error(ErrorType::BytesTooLong { max_length: m }));
            }
        }
        Ok(bytes)
    }
}

} // verus!
