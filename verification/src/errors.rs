//! Validation errors: the kinds of error a validator reports, where in the input
//! it happened, and the outcome of validating one value.
use vstd::prelude::*;

verus! {

/// One step of an error location: a key (field, argument, validator name) or a position.
#[derive(Debug)]
pub enum LocItem {
    S(String),
    I(i64),
}

impl LocItem {
    pub fn duplicate(&self) -> (r: Self)
        ensures
            r == *self,
    {
        match self {
            LocItem::S(s) => LocItem::S(s.clone()),
            LocItem::I(i) => LocItem::I(*i),
        }
    }
}

/// The kinds of validation error that the validators of this library raise.
#[derive(Debug)]
pub enum ErrorType {
    IntType,
    DictType,
    ModelType { class_name: String },
    MultipleOf { multiple_of: i64 },
    GreaterThan { gt: i64 },
    GreaterThanEqual { ge: i64 },
    LessThan { lt: i64 },
    LessThanEqual { le: i64 },
    TooShort { field_type: Option<String>, min_length: usize, actual_length: usize },
    TooLong { field_type: Option<String>, max_length: usize, actual_length: usize },
    BytesTooShort { min_length: usize },
    BytesTooLong { max_length: usize },
    BytesInvalidEncoding { encoding: String, encoding_error: String },
    StringPatternMismatch { pattern: String },
    LiteralError { expected: String },
    Enum { expected: String },
    IsInstanceOf { class: String },
    Missing,
    MissingArgument,
    MissingPositionalOnlyArgument,
    MissingKeywordOnlyArgument,
    MissingKeywordArgument,
    MultipleArgumentValues,
    UnexpectedPositionalArgument,
    UnexpectedPositionalArguments { unexpected_count: usize },
    UnexpectedKeywordArgument,
    InvalidKey,
    ExtraForbidden,
    FrozenField,
    NoSuchAttribute { attribute: String },
    UnionTagNotFound { tags: String },
    TupleType,
    ListType,
    SetType,
    FrozenSetType,
    UuidParsing { error: String },
    UuidVersionMismatch { version: usize, schema_version: usize },
    UuidExactType { class_name: String },
    UrlType,
    UrlTooLong { max_length: usize },
    UrlSchema { expected_schemas: String },
    UrlHostRequired,
    UrlParsing { error: String },
    UrlSyntaxViolation { error: String },
    EmailType,
    EmailParsing { error: String },
    DateFromDatetimeInexact,
    DateTimeParsing,
    DateFromDatetimeParsing,
    LessThanEqualText { le_text: String },
    LessThanText { lt_text: String },
    GreaterThanEqualText { ge_text: String },
    GreaterThanText { gt_text: String },
    Never,
    FiniteNumber,
    UnsetSentinelError,
    RecursionLoop,
}

impl ErrorType {
    /// A copy of the error kind.
    pub fn duplicate(&self) -> (r: Self)
        ensures
            r == *self,
    {
        match self {
            ErrorType::IntType => ErrorType::IntType,
            ErrorType::DictType => ErrorType::DictType,
            ErrorType::ModelType { class_name } => ErrorType::ModelType { class_name: class_name.clone() },
            ErrorType::MultipleOf { multiple_of } => ErrorType::MultipleOf { multiple_of: *multiple_of },
            ErrorType::GreaterThan { gt } => ErrorType::GreaterThan { gt: *gt },
            ErrorType::GreaterThanEqual { ge } => ErrorType::GreaterThanEqual { ge: *ge },
            ErrorType::LessThan { lt } => ErrorType::LessThan { lt: *lt },
            ErrorType::LessThanEqual { le } => ErrorType::LessThanEqual { le: *le },
            ErrorType::TooShort { field_type, min_length, actual_length } => ErrorType::TooShort { field_type: match field_type { Some(x) => Some(x.clone()), None => None }, min_length: *min_length, actual_length: *actual_length },
            ErrorType::TooLong { field_type, max_length, actual_length } => ErrorType::TooLong { field_type: match field_type { Some(x) => Some(x.clone()), None => None }, max_length: *max_length, actual_length: *actual_length },
            ErrorType::BytesTooShort { min_length } => ErrorType::BytesTooShort { min_length: *min_length },
            ErrorType::BytesTooLong { max_length } => ErrorType::BytesTooLong { max_length: *max_length },
            ErrorType::BytesInvalidEncoding { encoding, encoding_error } => ErrorType::BytesInvalidEncoding { encoding: encoding.clone(), encoding_error: encoding_error.clone() },
            ErrorType::StringPatternMismatch { pattern } => ErrorType::StringPatternMismatch { pattern: pattern.clone() },
            ErrorType::LiteralError { expected } => ErrorType::LiteralError { expected: expected.clone() },
            ErrorType::Enum { expected } => ErrorType::Enum { expected: expected.clone() },
            ErrorType::IsInstanceOf { class } => ErrorType::IsInstanceOf { class: class.clone() },
            ErrorType::Missing => ErrorType::Missing,
            ErrorType::MissingArgument => ErrorType::MissingArgument,
            ErrorType::MissingPositionalOnlyArgument => ErrorType::MissingPositionalOnlyArgument,
            ErrorType::MissingKeywordOnlyArgument => ErrorType::MissingKeywordOnlyArgument,
            ErrorType::MissingKeywordArgument => ErrorType::MissingKeywordArgument,
            ErrorType::MultipleArgumentValues => ErrorType::MultipleArgumentValues,
            ErrorType::UnexpectedPositionalArgument => ErrorType::UnexpectedPositionalArgument,
            ErrorType::UnexpectedPositionalArguments { unexpected_count } => ErrorType::UnexpectedPositionalArguments { unexpected_count: *unexpected_count },
            ErrorType::UnexpectedKeywordArgument => ErrorType::UnexpectedKeywordArgument,
            ErrorType::InvalidKey => ErrorType::InvalidKey,
            ErrorType::ExtraForbidden => ErrorType::ExtraForbidden,
            ErrorType::FrozenField => ErrorType::FrozenField,
            ErrorType::NoSuchAttribute { attribute } => ErrorType::NoSuchAttribute { attribute: attribute.clone() },
            ErrorType::UnionTagNotFound { tags } => ErrorType::UnionTagNotFound { tags: tags.clone() },
            ErrorType::TupleType => ErrorType::TupleType,
            ErrorType::ListType => ErrorType::ListType,
            ErrorType::SetType => ErrorType::SetType,
            ErrorType::FrozenSetType => ErrorType::FrozenSetType,
            ErrorType::UuidParsing { error } => ErrorType::UuidParsing { error: error.clone() },
            ErrorType::UuidVersionMismatch { version, schema_version } => ErrorType::UuidVersionMismatch { version: *version, schema_version: *schema_version },
            ErrorType::UuidExactType { class_name } => ErrorType::UuidExactType { class_name: class_name.clone() },
            ErrorType::UrlType => ErrorType::UrlType,
            ErrorType::UrlTooLong { max_length } => ErrorType::UrlTooLong { max_length: *max_length },
            ErrorType::UrlSchema { expected_schemas } => ErrorType::UrlSchema { expected_schemas: expected_schemas.clone() },
            ErrorType::UrlHostRequired => ErrorType::UrlHostRequired,
            ErrorType::UrlParsing { error } => ErrorType::UrlParsing { error: error.clone() },
            ErrorType::UrlSyntaxViolation { error } => ErrorType::UrlSyntaxViolation { error: error.clone() },
            ErrorType::EmailType => ErrorType::EmailType,
            ErrorType::EmailParsing { error } => ErrorType::EmailParsing { error: error.clone() },
            ErrorType::DateFromDatetimeInexact => ErrorType::DateFromDatetimeInexact,
            ErrorType::DateTimeParsing => ErrorType::DateTimeParsing,
            ErrorType::DateFromDatetimeParsing => ErrorType::DateFromDatetimeParsing,
            ErrorType::LessThanEqualText { le_text } => ErrorType::LessThanEqualText { le_text: le_text.clone() },
            ErrorType::LessThanText { lt_text } => ErrorType::LessThanText { lt_text: lt_text.clone() },
            ErrorType::GreaterThanEqualText { ge_text } => ErrorType::GreaterThanEqualText { ge_text: ge_text.clone() },
            ErrorType::GreaterThanText { gt_text } => ErrorType::GreaterThanText { gt_text: gt_text.clone() },
            ErrorType::Never => ErrorType::Never,
            ErrorType::FiniteNumber => ErrorType::FiniteNumber,
            ErrorType::UnsetSentinelError => ErrorType::UnsetSentinelError,
            ErrorType::RecursionLoop => ErrorType::RecursionLoop,
        }
    }
}

/// Which value an error reports, among those that the validator making it was given:
/// the whole input (for an assignment, the value assigned), a positional argument, the
/// value of a keyword argument or mapping entry, the key of a mapping entry (each by
/// its position among the arguments or entries), or the key at the second position inside
/// the mapping that is the value of the entry at the first.
#[derive(Debug, PartialEq, Eq, Structural, Clone, Copy)]
pub enum ErrorInput {
    Whole,
    Positional(usize),
    Keyword(usize),
    Key(usize),
    NestedKey(usize, usize),
}

/// A single error: its kind, its location (outermost item first), and the value it
/// reports.
#[derive(Debug)]
pub struct ValLineError {
    pub error_type: ErrorType,
    pub loc: Vec<LocItem>,
    pub input: ErrorInput,
}

impl ValLineError {
    /// An error at the root of the value being validated.
    pub fn new(error_type: ErrorType) -> (r: Self)
        ensures
            r.error_type == error_type,
            r.loc@ == Seq::<LocItem>::empty(),
            r.input == ErrorInput::Whole,
    {
        ValLineError { error_type, loc: Vec::new(), input: ErrorInput::Whole }
    }

    /// An error about the value `input`, at the root of the value being validated or
    /// one step inside it (`loc`).
    pub fn new_at(error_type: ErrorType, loc: Option<LocItem>, input: ErrorInput) -> (r: Self)
        ensures
            r.error_type == error_type,
            r.loc@ == (match loc {
                Some(l) => seq![l],
                None => Seq::<LocItem>::empty(),
            }),
            r.input == input,
    {
        let mut v = Vec::new();
        match loc {
            Some(l) => v.push(l),
            None => {},
        }
        proof {
            assert(v@ =~= (match loc {
                Some(l) => seq![l],
                None => Seq::<LocItem>::empty(),
            }));
        }
        ValLineError { error_type, loc: v, input }
    }

    /// An error one step inside the value being validated.
    pub fn new_with_loc(error_type: ErrorType, loc: LocItem) -> (r: Self)
        ensures
            r.error_type == error_type,
            r.loc@ == seq![loc],
            r.input == ErrorInput::Whole,
    {
        let mut v = Vec::new();
        v.push(loc);
        ValLineError { error_type, loc: v, input: ErrorInput::Whole }
    }

    /// Adds `outer` in front of the location: the error now lies one level deeper.
    pub fn with_outer_location(self, outer: LocItem) -> (r: Self)
        ensures
            r.error_type == self.error_type,
            r.loc@ == seq![outer] + self.loc@,
            r.input == self.input,
    {
        let mut loc = self.loc;
        loc.insert(0, outer);
        proof {
            assert(loc@ =~= seq![outer] + self.loc@);
        }
        ValLineError { error_type: self.error_type, loc, input: self.input }
    }

    /// Replaces the kind of the error, keeping its location.
    pub fn with_type(self, error_type: ErrorType) -> (r: Self)
        ensures
            r.error_type == error_type,
            r.loc@ == self.loc@,
            r.input == self.input,
    {
        ValLineError { error_type, loc: self.loc, input: self.input }
    }
}

/// `errors`, each with `outer` added in front of its location.
pub open spec fn errors_with_outer(errors: Seq<ValLineError>, outer: LocItem) -> Seq<(ErrorType, Seq<LocItem>)> {
    Seq::new(errors.len(), |i: int| (errors[i].error_type, seq![outer] + errors[i].loc@))
}

/// The kind and location of each error, as plain values.
pub open spec fn errors_view(errors: Seq<ValLineError>) -> Seq<(ErrorType, Seq<LocItem>)> {
    Seq::new(errors.len(), |i: int| (errors[i].error_type, errors[i].loc@))
}

/// The value that each error reports.
pub open spec fn inputs_view(errors: Seq<ValLineError>) -> Seq<ErrorInput> {
    Seq::new(errors.len(), |i: int| errors[i].input)
}

/// Adds `outer` in front of the location of each error of `errors`.
pub fn prefix_errors(errors: Vec<ValLineError>, outer: &LocItem) -> (r: Vec<ValLineError>)
    ensures
        errors_view(r@) == errors_with_outer(errors@, *outer),
        inputs_view(r@) == inputs_view(errors@),
{
    let mut out: Vec<ValLineError> = Vec::new();
    let mut rest = errors;
    let ghost orig = rest@;
    let ghost mut i: int = 0;
    while rest.len() > 0
        invariant
            0 <= i <= orig.len(),
            rest@ =~= orig.subrange(i, orig.len() as int),
            out@.len() == i,
            errors_view(out@) =~= errors_with_outer(orig.subrange(0, i), *outer),
            inputs_view(out@) =~= inputs_view(orig.subrange(0, i)),
        decreases rest.len(),
    {
        let e = rest.remove(0);
        let ghost old_out = out@;
        let ne = e.with_outer_location(outer.duplicate());
        out.push(ne);
        proof {
            assert(e == orig[i]);
            assert(errors_view(old_out) =~= errors_with_outer(orig.subrange(0, i), *outer));
            assert forall|k: int| 0 <= k < i implies #[trigger] errors_view(out@)[k] == errors_view(old_out)[k] by {
                assert(out@[k] == old_out[k]);
            }
            assert forall|k: int| 0 <= k < i implies #[trigger] inputs_view(out@)[k] == inputs_view(old_out)[k] by {
                assert(out@[k] == old_out[k]);
            }
            assert(inputs_view(old_out) =~= inputs_view(orig.subrange(0, i)));
            i = i + 1;
            assert(errors_view(out@) =~= errors_with_outer(orig.subrange(0, i), *outer));
            assert(inputs_view(out@) =~= inputs_view(orig.subrange(0, i)));
        }
    }
    proof {
        assert(orig.subrange(0, orig.len() as int) =~= orig);
    }
    out
}

/// The result of validating one value: the validated value, or why it failed.
#[derive(Debug)]
pub enum ValError {
    /// Ordinary validation errors.
    LineErrors(Vec<ValLineError>),
    /// The value is to be left out of the output.
    Omit,
    /// The default value is to be used in place of the value.
    UseDefault,
    /// An error that is not about the input, passed on as it is.
    Internal(String),
}

/// `r` is `e` with `outer` in front of the location of each of its line errors (any
/// other failure is left as it is).
pub open spec fn error_with_outer(e: ValError, outer: LocItem, r: ValError) -> bool {
    match e {
        ValError::LineErrors(es) => r matches ValError::LineErrors(es2) && errors_view(es2@) == errors_with_outer(es@, outer),
        _ => r == e,
    }
}

impl ValError {
    /// Puts `outer` in front of the location of each line error.
    pub fn with_outer_location(self, outer: LocItem) -> (r: ValError)
        ensures
            error_with_outer(self, outer, r),
    {
        match self {
            ValError::LineErrors(es) => ValError::LineErrors(prefix_errors(es, &outer)),
            other => other,
        }
    }
}

} // verus!
