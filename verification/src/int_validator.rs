//! The `int` validator and its constrained form: an integer, checked against the
//! bounds and the multiple that the schema sets.
use vstd::prelude::*;
use crate::constraints::{is_multiple, root_error};
use crate::errors::{errors_view, ErrorType, LocItem, ValError};

verus! {

/// An input as the int validators see it.
#[derive(Debug)]
pub enum IntInput {
    /// Not an integer, nor anything that reads as one.
    NotInt,
    /// Something that reads as an integer, but not as a valid one (with the error).
    Invalid(ValError),
    /// An integer; `lax` where it was read from something that is not exactly an integer
    /// (such as a string or a float with no fractional part).
    Int { value: i64, lax: bool },
}

/// The schema of an int validator.
#[derive(Debug)]
pub struct IntSchema {
    pub strict: bool,
    pub multiple_of: Option<i64>,
    pub le: Option<i64>,
    pub lt: Option<i64>,
    pub ge: Option<i64>,
    pub gt: Option<i64>,
}

#[derive(Debug)]
pub struct IntValidator {
    pub strict: bool,
}

#[derive(Debug)]
pub struct ConstrainedIntValidator {
    pub strict: bool,
    pub multiple_of: Option<i64>,
    pub le: Option<i64>,
    pub lt: Option<i64>,
    pub ge: Option<i64>,
    pub gt: Option<i64>,
}

/// The validator that an int schema builds: plain, or constrained where it sets any
/// bound or multiple.
#[derive(Debug)]
pub enum BuiltIntValidator {
    Int(IntValidator),
    Constrained(ConstrainedIntValidator),
}

/// The integer that `input` reads as, in strict mode where `strict`, or the error.
pub open spec fn spec_read_int(input: IntInput, strict: bool) -> Result<(i64, bool), Option<ValError>> {
    match input {
        IntInput::NotInt => Err(None),
        IntInput::Invalid(e) => Err(Some(e)),
        IntInput::Int { value, lax } => if strict && lax {
            Err(None)
        } else {
            Ok((value, lax))
        },
    }
}

impl IntValidator {
    /// Builds the int validator of `schema`: constrained where it sets any bound or
    /// multiple, plain otherwise.
    pub fn build(schema: IntSchema) -> (r: BuiltIntValidator)
        ensures
            (schema.multiple_of is Some || schema.le is Some || schema.lt is Some || schema.ge is Some || schema.gt is Some)
                ==> r == BuiltIntValidator::Constrained(
                ConstrainedIntValidator {
                    strict: schema.strict,
                    multiple_of: schema.multiple_of,
                    le: schema.le,
                    lt: schema.lt,
                    ge: schema.ge,
                    gt: schema.gt,
                },
            ),
            !(schema.multiple_of is Some || schema.le is Some || schema.lt is Some || schema.ge is Some || schema.gt is Some)
                ==> r == BuiltIntValidator::Int(IntValidator { strict: schema.strict }),
    {
        if schema.multiple_of.is_some() || schema.le.is_some() || schema.lt.is_some() || schema.ge.is_some()
            || schema.gt.is_some() {
            BuiltIntValidator::Constrained(
                ConstrainedIntValidator {
                    strict: schema.strict,
                    multiple_of: schema.multiple_of,
                    le: schema.le,
                    lt: schema.lt,
                    ge: schema.ge,
                    gt: schema.gt,
                },
            )
        } else {
            BuiltIntValidator::Int(IntValidator { strict: schema.strict })
        }
    }

    /// Validates `input` as an integer, in strict mode where the validation asks for it
    /// (`strict`) or else where the schema does: the integer and whether it was read
    /// laxly, or the error.
    pub fn validate(&self, input: IntInput, strict: Option<bool>) -> (r: Result<(i64, bool), ValError>)
        ensures
            match spec_read_int(input, unwrap_or(strict, self.strict)) {
                Ok(v) => r == Ok::<(i64, bool), ValError>(v),
                Err(Some(e)) => r == Err::<(i64, bool), ValError>(e),
                Err(None) => r matches Err(ValError::LineErrors(es)) && errors_view(es@) == seq![
                    (ErrorType::IntType, Seq::<LocItem>::empty()),
                ],
            },
    {
        read_int(input, unwrap_or_exec(strict, self.strict))
    }

    /// Whether strict mode changes what the validator accepts (it does, short of ultra
    /// strictness).
    pub fn different_strict_behavior(&self, ultra_strict: bool) -> (r: bool)
        ensures
            r == !ultra_strict,
    {
        !ultra_strict
    }
}

pub open spec fn unwrap_or(o: Option<bool>, d: bool) -> bool {
    match o {
        Some(b) => b,
        None => d,
    }
}

fn unwrap_or_exec(o: Option<bool>, d: bool) -> (r: bool)
    ensures
        r == unwrap_or(o, d),
{
    match o {
        Some(b) => b,
        None => d,
    }
}

fn read_int(input: IntInput, strict: bool) -> (r: Result<(i64, bool), ValError>)
    ensures
        match spec_read_int(input, strict) {
            Ok(v) => r == Ok::<(i64, bool), ValError>(v),
            Err(Some(e)) => r == Err::<(i64, bool), ValError>(e),
            Err(None) => r matches Err(ValError::LineErrors(es)) && errors_view(es@) == seq![
                (ErrorType::IntType, Seq::<LocItem>::empty()),
            ],
        },
{
    match input {
        IntInput::NotInt => Err(root_error(ErrorType::IntType)),
        IntInput::Invalid(e) => Err(e),
        IntInput::Int { value, lax } => if strict && lax {
            Err(root_error(ErrorType::IntType))
        } else {
            Ok((value, lax))
        },
    }
}

/// The first constraint of `v` that `value` breaks, in the order multiple, `le`, `lt`,
/// `ge`, `gt`, as its error.
pub open spec fn spec_int_constraint_error(v: ConstrainedIntValidator, value: i64) -> Option<ErrorType> {
    if v.multiple_of matches Some(m) && !crate::constraints::is_multiple_of(value as int, m as int) {
        Some(ErrorType::MultipleOf { multiple_of: v.multiple_of->Some_0 })
    } else if v.le matches Some(b) && value > b {
        Some(ErrorType::LessThanEqual { le: v.le->Some_0 })
    } else if v.lt matches Some(b) && value >= b {
        Some(ErrorType::LessThan { lt: v.lt->Some_0 })
    } else if v.ge matches Some(b) && value < b {
        Some(ErrorType::GreaterThanEqual { ge: v.ge->Some_0 })
    } else if v.gt matches Some(b) && value <= b {
        Some(ErrorType::GreaterThan { gt: v.gt->Some_0 })
    } else {
        None
    }
}

/// Whether `value` keeps every constraint of `v`: a whole multiple of `multiple_of`, at
/// most `le`, below `lt`, at least `ge`, above `gt` (each where it is set).
pub open spec fn int_within(v: ConstrainedIntValidator, value: i64) -> bool {
    &&& (v.multiple_of matches Some(m) ==> crate::constraints::is_multiple_of(value as int, m as int))
    &&& (v.le matches Some(b) ==> value <= b)
    &&& (v.lt matches Some(b) ==> value < b)
    &&& (v.ge matches Some(b) ==> value >= b)
    &&& (v.gt matches Some(b) ==> value > b)
}

/// Whether `value` keeps the first `n` constraints of `v`, in the order multiple, `le`,
/// `lt`, `ge`, `gt`.
pub open spec fn int_first_ok(v: ConstrainedIntValidator, value: i64, n: int) -> bool {
    &&& (n > 0 && v.multiple_of is Some ==> crate::constraints::is_multiple_of(value as int, v.multiple_of->Some_0 as int))
    &&& (n > 1 && v.le is Some ==> value <= v.le->Some_0)
    &&& (n > 2 && v.lt is Some ==> value < v.lt->Some_0)
    &&& (n > 3 && v.ge is Some ==> value >= v.ge->Some_0)
}

/// An integer passes the constraints exactly where it keeps each of them; one that fails
/// them is refused with the error of the first it breaks, in the order multiple, `le`,
/// `lt`, `ge`, `gt`, which names that constraint's value.
pub proof fn int_constraints_law(v: ConstrainedIntValidator, value: i64)
    ensures
        (spec_int_constraint_error(v, value) is None) == int_within(v, value),
        spec_int_constraint_error(v, value) == Some(ErrorType::LessThan { lt: v.lt->Some_0 }) ==> v.lt is Some && value
            >= v.lt->Some_0,
        spec_int_constraint_error(v, value) == Some(ErrorType::LessThanEqual { le: v.le->Some_0 }) ==> v.le is Some
            && value > v.le->Some_0,
        spec_int_constraint_error(v, value) == Some(ErrorType::GreaterThan { gt: v.gt->Some_0 }) ==> v.gt is Some
            && value <= v.gt->Some_0,
        spec_int_constraint_error(v, value) == Some(ErrorType::GreaterThanEqual { ge: v.ge->Some_0 }) ==> v.ge is Some
            && value < v.ge->Some_0,
        v.multiple_of is Some && !crate::constraints::is_multiple_of(value as int, v.multiple_of->Some_0 as int)
            ==> spec_int_constraint_error(v, value) == Some(ErrorType::MultipleOf { multiple_of: v.multiple_of->Some_0 }),
        int_first_ok(v, value, 1) && v.le is Some && value > v.le->Some_0 ==> spec_int_constraint_error(v, value) == Some(
            ErrorType::LessThanEqual { le: v.le->Some_0 },
        ),
        int_first_ok(v, value, 2) && v.lt is Some && value >= v.lt->Some_0 ==> spec_int_constraint_error(v, value) == Some(
            ErrorType::LessThan { lt: v.lt->Some_0 },
        ),
        int_first_ok(v, value, 3) && v.ge is Some && value < v.ge->Some_0 ==> spec_int_constraint_error(v, value) == Some(
            ErrorType::GreaterThanEqual { ge: v.ge->Some_0 },
        ),
        int_first_ok(v, value, 4) && v.gt is Some && value <= v.gt->Some_0 ==> spec_int_constraint_error(v, value) == Some(
            ErrorType::GreaterThan { gt: v.gt->Some_0 },
        ),
{
}

impl ConstrainedIntValidator {
    /// Validates `input` as an integer (strict as for `IntValidator::validate`) and
    /// checks it against the constraints: the integer and whether it was read laxly, or
    /// the error of the first constraint it breaks. A multiple of zero has no meaning and
    /// is not accepted.
    pub fn validate(&self, input: IntInput, strict: Option<bool>) -> (r: Result<(i64, bool), ValError>)
        requires
            self.multiple_of != Some(0i64),
        ensures
            match spec_read_int(input, unwrap_or(strict, self.strict)) {
                Ok((value, lax)) => match spec_int_constraint_error(*self, value) {
                    None => r == Ok::<(i64, bool), ValError>((value, lax)),
                    Some(e) => r matches Err(ValError::LineErrors(es)) && errors_view(es@) == seq![
                        (e, Seq::<LocItem>::empty()),
                    ],
                },
                Err(Some(e)) => r == Err::<(i64, bool), ValError>(e),
                Err(None) => r matches Err(ValError::LineErrors(es)) && errors_view(es@) == seq![
                    (ErrorType::IntType, Seq::<LocItem>::empty()),
                ],
            },
            spec_read_int(input, unwrap_or(strict, self.strict)) matches Ok((value, _)) ==> ((r is Ok) == int_within(
                *self,
                value,
            )),
            r matches Ok((value, _)) ==> int_within(*self, value),
    {
        proof {
            if let Ok((value, _)) = spec_read_int(input, unwrap_or(strict, self.strict)) {
                int_constraints_law(*self, value);
            }
        }
        let (value, lax) = match read_int(input, unwrap_or_exec(strict, self.strict)) {
            Ok(v) => v,
            Err(e) => {
                return Err(e);
            },
        };
        if let Some(m) = self.multiple_of {
            if !is_multiple(value, m) {
                return Err(root_error(ErrorType::MultipleOf { multiple_of: m }));
            }
        }
        if let Some(b) = self.le {
            if value > b {
                return Err(root_error(ErrorType::LessThanEqual { le: b }));
            }
        }
        if let Some(b) = self.lt {
            if value >= b {
                return Err(root_error(ErrorType::LessThan { lt: b }));
            }
        }
        if let Some(b) = self.ge {
            if value < b {
                return Err(root_error(ErrorType::GreaterThanEqual { ge: b }));
            }
        }
        if let Some(b) = self.gt {
            if value <= b {
                return Err(root_error(ErrorType::GreaterThan { gt: b }));
            }
        }
        Ok((value, lax))
    }
}

} // verus!
