//! The `email` validator (an address parsed by the `email_address` crate) and the
//! `name-email` validator.
use vstd::prelude::*;
use std::str::FromStr;
use email_address::EmailAddress;
use crate::constraints::{is_single_error, root_error};
use crate::errors::{ErrorType, ValError};

verus! {

#[verifier::external_type_specification]
#[verifier::external_body]
pub struct ExEmailAddress(EmailAddress);

/// An address that `EmailAddress::from_str` accepted, with its text.
#[derive(Debug)]
pub struct ParsedEmail {
    pub email: EmailAddress,
    pub text: String,
}

/// What `EmailAddress::from_str` gives for a string: the address's text, or the error's
/// message.
pub uninterp spec fn email_parsed(s: Seq<char>) -> Result<Seq<char>, Seq<char>>;

pub open spec fn email_view(r: Result<ParsedEmail, String>) -> Result<Seq<char>, Seq<char>> {
    match r {
        Ok(p) => Ok(p.text@),
        Err(m) => Err(m@),
    }
}

/// `EmailAddress::from_str` (with `as_str` of the address), or the error's message.
/// What it gives is named, as a function of the string alone.
#[verifier::external_body]
fn parse_email_str(s: &str) -> (r: Result<ParsedEmail, String>)
    ensures
        email_view(r) == email_parsed(s@),
{
    match EmailAddress::from_str(s) {
        Ok(e) => Ok(ParsedEmail { text: e.as_str().to_string(), email: e }),
        Err(err) => Err(err.to_string()),
    }
}

/// The value that the email validator is given.
#[derive(Debug)]
pub enum EmailInput {
    /// A string (one that the validation accepts as such).
    Str(String),
    /// An email object.
    Email(ParsedEmail),
    /// Anything else.
    Other,
}

#[derive(Debug)]
pub struct EmailValidator {
    pub strict: bool,
}

impl EmailValidator {
    /// Validates `input` as an email address: a string is parsed; an email object is kept;
    /// anything else is an error.
    pub fn get_email(&self, input: EmailInput) -> (r: Result<ParsedEmail, ValError>)
        ensures
            match input {
                EmailInput::Str(s) => match email_parsed(s@) {
                    Ok(t) => r matches Ok(p) && p.text@ == t,
                    Err(m) => r matches Err(ValError::LineErrors(es)) && es@.len() == 1 && es@[0].loc@.len() == 0 && (
                    es@[0].error_type matches ErrorType::EmailParsing { error } && error@ == m),
                },
                EmailInput::Email(p) => r == Ok::<ParsedEmail, ValError>(p),
                EmailInput::Other => r matches Err(e) && is_single_error(e, ErrorType::EmailType),
            },
    {
        match input {
            EmailInput::Str(s) => match parse_email_str(s.as_str()) {
                Ok(p) => Ok(p),
                Err(m) => Err(root_error(ErrorType::EmailParsing { error: m })),
            },
            EmailInput::Email(p) => Ok(p),
            EmailInput::Other => Err(root_error(ErrorType::EmailType)),
        }
    }
}

/// The `name-email` validator.
#[derive(Debug)]
pub struct NameEmailValidator;

impl NameEmailValidator {
    /// What the validator gives for a parsed name and address: the address where both are
    /// there, else the empty string.
    pub fn validate(&self, name: Option<String>, address: Option<String>) -> (r: String)
        ensures
            (name is Some && address is Some) ==> r@ == address->Some_0@,
            !(name is Some && address is Some) ==> r@ == Seq::<char>::empty(),
    {
        match (name, address) {
            (Some(_), Some(a)) => a,
            _ => String::new(),
        }
    }
}

} // verus!
