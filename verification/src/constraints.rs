//! Single constraints on a value (a length bound, an order bound, a multiple, a
//! pattern, a predicate), as the `constraint` validator checks them.
use vstd::prelude::*;
use crate::errors::{errors_view, ErrorType, LocItem, ValError, ValLineError};
use crate::lookup::str_eq;

verus! {

#[derive(Debug)]
pub enum Constraint {
    MinLength(usize),
    MaxLength(usize),
    GreaterThan(i64),
    GreaterThanOrEqual(i64),
    LessThan(i64),
    LessThanOrEqual(i64),
    MultipleOf(i64),
    /// A regular expression, which the value must match from its start.
    Pattern { original_pattern: String },
    /// A predicate that the value must satisfy, and the error that a value which does not
    /// satisfy it gives.
    Unknown { error: ErrorType },
}

/// What the constraints look at in the value: its length, its integer value, whether
/// it matches the constraint's pattern, and whether it satisfies the predicate (each
/// where the constraint needs it).
#[derive(Debug)]
pub struct ConstraintSubject {
    pub len: usize,
    pub value: i64,
    pub pattern_matches: bool,
    pub predicate_holds: bool,
}

/// The error that `c` finds in `s`, where it finds one.
pub open spec fn spec_constraint_error(c: Constraint, s: ConstraintSubject) -> Option<ErrorType> {
    match c {
        Constraint::MinLength(m) => if s.len < m {
            Some(ErrorType::TooShort { field_type: None, min_length: m, actual_length: s.len })
        } else {
            None
        },
        Constraint::MaxLength(m) => if s.len > m {
            Some(ErrorType::TooLong { field_type: None, max_length: m, actual_length: s.len })
        } else {
            None
        },
        Constraint::GreaterThan(b) => if s.value > b {
            None
        } else {
            Some(ErrorType::GreaterThan { gt: b })
        },
        Constraint::GreaterThanOrEqual(b) => if s.value >= b {
            None
        } else {
            Some(ErrorType::GreaterThanEqual { ge: b })
        },
        Constraint::LessThan(b) => if s.value < b {
            None
        } else {
            Some(ErrorType::LessThan { lt: b })
        },
        Constraint::LessThanOrEqual(b) => if s.value <= b {
            None
        } else {
            Some(ErrorType::LessThanEqual { le: b })
        },
        Constraint::MultipleOf(m) => if is_multiple_of(s.value as int, m as int) {
            None
        } else {
            Some(ErrorType::MultipleOf { multiple_of: m })
        },
        Constraint::Pattern { original_pattern } => if s.pattern_matches {
            None
        } else {
            Some(ErrorType::StringPatternMismatch { pattern: original_pattern })
        },
        Constraint::Unknown { error } => if s.predicate_holds {
            None
        } else {
            Some(error)
        },
    }
}

/// The kinds of constraint that a schema can name.
#[derive(Debug, PartialEq, Eq, Structural, Clone, Copy)]
pub enum ConstraintKind {
    MinLength,
    MaxLength,
    Gt,
    Ge,
    Lt,
    Le,
    MultipleOf,
    Pattern,
}

/// The kind of a constraint, as the schema names it.
pub open spec fn constraint_kind(t: Seq<char>) -> Option<ConstraintKind> {
    if t == "min-length"@ {
        Some(ConstraintKind::MinLength)
    } else if t == "max-length"@ {
        Some(ConstraintKind::MaxLength)
    } else if t == "gt"@ {
        Some(ConstraintKind::Gt)
    } else if t == "ge"@ {
        Some(ConstraintKind::Ge)
    } else if t == "lt"@ {
        Some(ConstraintKind::Lt)
    } else if t == "le"@ {
        Some(ConstraintKind::Le)
    } else if t == "multiple-of"@ {
        Some(ConstraintKind::MultipleOf)
    } else if t == "pattern"@ {
        Some(ConstraintKind::Pattern)
    } else {
        None
    }
}

/// Whether the subject `s` satisfies the constraint `c`: a length at least the minimum or
/// at most the maximum; a value above, at least, below or at most the bound; a whole
/// multiple; a match of the pattern; the predicate.
pub open spec fn constraint_holds(c: Constraint, s: ConstraintSubject) -> bool {
    match c {
        Constraint::MinLength(m) => s.len >= m,
        Constraint::MaxLength(m) => s.len <= m,
        Constraint::GreaterThan(b) => s.value > b,
        Constraint::GreaterThanOrEqual(b) => s.value >= b,
        Constraint::LessThan(b) => s.value < b,
        Constraint::LessThanOrEqual(b) => s.value <= b,
        Constraint::MultipleOf(m) => is_multiple_of(s.value as int, m as int),
        Constraint::Pattern { .. } => s.pattern_matches,
        Constraint::Unknown { .. } => s.predicate_holds,
    }
}

/// A constraint finds an error in a subject exactly where the subject does not satisfy it,
/// and the error names the constraint's bound: a value at or below the bound of
/// `GreaterThan(b)` is the error `GreaterThan { gt: b }`, and so on.
pub proof fn constraint_law(c: Constraint, s: ConstraintSubject)
    ensures
        (spec_constraint_error(c, s) is None) == constraint_holds(c, s),
        c matches Constraint::GreaterThan(b) ==> (!constraint_holds(c, s) ==> spec_constraint_error(c, s) == Some(
            ErrorType::GreaterThan { gt: b },
        )),
        c matches Constraint::GreaterThanOrEqual(b) ==> (!constraint_holds(c, s) ==> spec_constraint_error(c, s) == Some(
            ErrorType::GreaterThanEqual { ge: b },
        )),
        c matches Constraint::LessThan(b) ==> (!constraint_holds(c, s) ==> spec_constraint_error(c, s) == Some(
            ErrorType::LessThan { lt: b },
        )),
        c matches Constraint::LessThanOrEqual(b) ==> (!constraint_holds(c, s) ==> spec_constraint_error(c, s) == Some(
            ErrorType::LessThanEqual { le: b },
        )),
        c matches Constraint::MultipleOf(m) ==> (!constraint_holds(c, s) ==> spec_constraint_error(c, s) == Some(
            ErrorType::MultipleOf { multiple_of: m },
        )),
{
}

/// The message of Python's `ZeroDivisionError` for an integer modulo by zero.
pub open spec fn zero_modulo_message() -> Seq<char> {
    "integer modulo by zero"@
}

impl Constraint {
    /// Builds the constraint of the kind `kind` from its value: a length (`len_value`),
    /// an integer (`int_value`) or a pattern (`pattern`). An unknown kind is an error.
    pub fn build(kind: &str, len_value: usize, int_value: i64, pattern: &str) -> (r: Result<Constraint, String>)
        ensures
            constraint_kind(kind@) is None <==> r is Err,
            r matches Err(m) ==> m@ == "Unknown constraint type: "@ + kind@,
            constraint_kind(kind@) == Some(ConstraintKind::MinLength) ==> r == Ok::<Constraint, String>(Constraint::MinLength(len_value)),
            constraint_kind(kind@) == Some(ConstraintKind::MaxLength) ==> r == Ok::<Constraint, String>(Constraint::MaxLength(len_value)),
            constraint_kind(kind@) == Some(ConstraintKind::Gt) ==> r == Ok::<Constraint, String>(Constraint::GreaterThan(int_value)),
            constraint_kind(kind@) == Some(ConstraintKind::Ge) ==> r == Ok::<Constraint, String>(Constraint::GreaterThanOrEqual(int_value)),
            constraint_kind(kind@) == Some(ConstraintKind::Lt) ==> r == Ok::<Constraint, String>(Constraint::LessThan(int_value)),
            constraint_kind(kind@) == Some(ConstraintKind::Le) ==> r == Ok::<Constraint, String>(Constraint::LessThanOrEqual(int_value)),
            constraint_kind(kind@) == Some(ConstraintKind::MultipleOf) ==> r == Ok::<Constraint, String>(Constraint::MultipleOf(int_value)),
            constraint_kind(kind@) == Some(ConstraintKind::Pattern) ==> (r matches Ok(Constraint::Pattern { original_pattern }) && original_pattern@
                == pattern@),
    {
        if str_eq(kind, "min-length") {
            Ok(Constraint::MinLength(len_value))
        } else if str_eq(kind, "max-length") {
            Ok(Constraint::MaxLength(len_value))
        } else if str_eq(kind, "gt") {
            Ok(Constraint::GreaterThan(int_value))
        } else if str_eq(kind, "ge") {
            Ok(Constraint::GreaterThanOrEqual(int_value))
        } else if str_eq(kind, "lt") {
            Ok(Constraint::LessThan(int_value))
        } else if str_eq(kind, "le") {
            Ok(Constraint::LessThanOrEqual(int_value))
        } else if str_eq(kind, "multiple-of") {
            Ok(Constraint::MultipleOf(int_value))
        } else if str_eq(kind, "pattern") {
            Ok(Constraint::Pattern { original_pattern: String::from_str(pattern) })
        } else {
            let mut m = String::from_str("Unknown constraint type: ");
            m.append(kind);
            Err(m)
        }
    }

    /// Checks `subject` against the constraint: the value passes, or fails with one error
    /// at its root (for a predicate, the error that the constraint carries). A multiple of
    /// zero cannot be checked: Python's modulo by zero raises, which passes on as an
    /// internal error.
    pub fn validate(&self, subject: &ConstraintSubject) -> (r: Result<(), ValError>)
        ensures
            *self matches Constraint::MultipleOf(m) && m == 0 ==> (r matches Err(ValError::Internal(msg)) && msg@
                == zero_modulo_message()),
            !(*self matches Constraint::MultipleOf(m) && m == 0) ==> ((r is Ok) == constraint_holds(*self, *subject)),
            !(*self matches Constraint::MultipleOf(m) && m == 0) ==> {
                &&& spec_constraint_error(*self, *subject) is None ==> r is Ok
                &&& spec_constraint_error(*self, *subject) matches Some(e) ==> (r matches Err(ValError::LineErrors(es))
                    && errors_view(es@) == seq![(e, Seq::<LocItem>::empty())])
            },
    {
        proof {
            constraint_law(*self, *subject);
        }
        if let Constraint::MultipleOf(m) = self {
            if *m == 0 {
                return Err(ValError::Internal(String::from_str("integer modulo by zero")));
            }
        }
        let err = match self {
            Constraint::MinLength(m) => if subject.len < *m {
                Some(ErrorType::TooShort { field_type: None, min_length: *m, actual_length: subject.len })
            } else {
                None
            },
            Constraint::MaxLength(m) => if subject.len > *m {
                Some(ErrorType::TooLong { field_type: None, max_length: *m, actual_length: subject.len })
            } else {
                None
            },
            Constraint::GreaterThan(b) => if subject.value > *b {
                None
            } else {
                Some(ErrorType::GreaterThan { gt: *b })
            },
            Constraint::GreaterThanOrEqual(b) => if subject.value >= *b {
                None
            } else {
                Some(ErrorType::GreaterThanEqual { ge: *b })
            },
            Constraint::LessThan(b) => if subject.value < *b {
                None
            } else {
                Some(ErrorType::LessThan { lt: *b })
            },
            Constraint::LessThanOrEqual(b) => if subject.value <= *b {
                None
            } else {
                Some(ErrorType::LessThanEqual { le: *b })
            },
            Constraint::MultipleOf(m) => if is_multiple(subject.value, *m) {
                None
            } else {
                Some(ErrorType::MultipleOf { multiple_of: *m })
            },
            Constraint::Pattern { original_pattern } => if subject.pattern_matches {
                None
            } else {
                Some(ErrorType::StringPatternMismatch { pattern: original_pattern.clone() })
            },
            Constraint::Unknown { error } => if subject.predicate_holds {
                None
            } else {
                Some(error.duplicate())
            },
        };
        match err {
            Some(e) => Err(root_error(e)),
            None => Ok(()),
        }
    }

    /// The name of the constraint.
    pub fn get_name(&self) -> (r: &'static str)
        ensures
            r@ == (match *self {
                Constraint::MinLength(_) => "min_length"@,
                Constraint::MaxLength(_) => "max_length"@,
                Constraint::GreaterThan(_) => "greater_than"@,
                Constraint::GreaterThanOrEqual(_) => "greater_than_or_equal"@,
                Constraint::LessThan(_) => "less_than"@,
                Constraint::LessThanOrEqual(_) => "less_than_or_equal"@,
                Constraint::MultipleOf(_) => "multiple_of"@,
                Constraint::Pattern { .. } => "pattern"@,
                Constraint::Unknown { .. } => "constraint"@,
            }),
    {
        match self {
            Constraint::MinLength(_) => "min_length",
            Constraint::MaxLength(_) => "max_length",
            Constraint::GreaterThan(_) => "greater_than",
            Constraint::GreaterThanOrEqual(_) => "greater_than_or_equal",
            Constraint::LessThan(_) => "less_than",
            Constraint::LessThanOrEqual(_) => "less_than_or_equal",
            Constraint::MultipleOf(_) => "multiple_of",
            Constraint::Pattern { .. } => "pattern",
            Constraint::Unknown { .. } => "constraint",
        }
    }
}

/// The magnitude of `x`.
pub open spec fn magnitude(x: int) -> nat {
    if x < 0 {
        (-x) as nat
    } else {
        x as nat
    }
}

/// Whether `value` is a whole multiple of `m`.
pub open spec fn is_multiple_of(value: int, m: int) -> bool {
    magnitude(value) % magnitude(m) == 0
}

fn magnitude_of(x: i64) -> (r: u128)
    ensures
        r == magnitude(x as int),
{
    let w = x as i128;
    if w < 0 {
        (-w) as u128
    } else {
        w as u128
    }
}

/// Whether `value` is a whole multiple of `m`.
pub fn is_multiple(value: i64, m: i64) -> (r: bool)
    requires
        m != 0,
    ensures
        r == is_multiple_of(value as int, m as int),
{
    magnitude_of(value) % magnitude_of(m) == 0
}

/// `r` is the one error `e`, at the root of the value.
pub open spec fn is_single_error(r: ValError, e: ErrorType) -> bool {
    r matches ValError::LineErrors(es) && es@.len() == 1 && es@[0].error_type == e && es@[0].loc@.len() == 0
}

/// An error at the root of the value.
pub fn root_error(e: ErrorType) -> (r: ValError)
    ensures
        is_single_error(r, e),
        r matches ValError::LineErrors(es) && errors_view(es@) == seq![(e, Seq::<LocItem>::empty())],
{
    let mut es: Vec<ValLineError> = Vec::new();
    es.push(ValLineError::new(e));
    proof {
        assert(errors_view(es@) =~= seq![(e, Seq::<LocItem>::empty())]);
    }
    ValError::LineErrors(es)
}

} // verus!
