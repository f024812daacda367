//! The `date`, `datetime` and `time` validators: bounds on the value (compared as `speedate`
//! compares them), reading a date from a datetime with no time, and the
//! name of a fixed UTC offset.
use vstd::prelude::*;
use speedate::{Date, DateTime, Time};
use strum::EnumMessage;
use crate::constraints::{is_single_error, root_error};
use crate::errors::{errors_view, ErrorType, LocItem, ValError, ValLineError};

verus! {

#[derive(Debug, PartialEq, Eq, Structural, Clone, Copy)]
pub struct DateValue {
    pub year: u16,
    pub month: u8,
    pub day: u8,
}

#[derive(Debug, PartialEq, Eq, Structural, Clone, Copy)]
pub struct TimeValue {
    pub hour: u8,
    pub minute: u8,
    pub second: u8,
    pub microsecond: u32,
}

#[derive(Debug, PartialEq, Eq, Structural, Clone, Copy)]
pub struct DateTimeValue {
    pub date: DateValue,
    pub time: TimeValue,
    /// The UTC offset in seconds, where there is one.
    pub offset: Option<i32>,
}

/// How two values compare.
#[derive(Debug, PartialEq, Eq, Structural, Clone, Copy)]
pub enum Cmp3 {
    Less,
    Equal,
    Greater,
}

/// A date whose month and day are in range (as `speedate` parses them): the range in
/// which `speedate`'s arithmetic on dates cannot overflow.
pub open spec fn valid_date(d: DateValue) -> bool {
    1 <= d.month <= 12 && 1 <= d.day <= 31
}

/// A UTC offset of less than a day either way, where there is one (as `speedate` parses
/// them).
pub open spec fn valid_offset(o: Option<i32>) -> bool {
    match o {
        Some(v) => -86400 < v < 86400,
        None => true,
    }
}

/// A datetime whose date and offset are in range.
pub open spec fn valid_datetime(d: DateTimeValue) -> bool {
    valid_date(d.date) && valid_offset(d.offset)
}

/// Whether the datetime `d` is in range (see `valid_datetime`).
pub fn is_valid_datetime(d: &DateTimeValue) -> (r: bool)
    ensures
        r == valid_datetime(*d),
{
    1 <= d.date.month && d.date.month <= 12 && 1 <= d.date.day && d.date.day <= 31 && match d.offset {
        Some(v) => -86400 < v && v < 86400,
        None => true,
    }
}

/// How two dates compare: by year, then month, then day (the order that `speedate::Date`
/// derives).
pub open spec fn date_cmp(a: DateValue, b: DateValue) -> Cmp3 {
    if a.year < b.year {
        Cmp3::Less
    } else if a.year > b.year {
        Cmp3::Greater
    } else if a.month < b.month {
        Cmp3::Less
    } else if a.month > b.month {
        Cmp3::Greater
    } else if a.day < b.day {
        Cmp3::Less
    } else if a.day > b.day {
        Cmp3::Greater
    } else {
        Cmp3::Equal
    }
}

/// How two datetimes compare, as `speedate::DateTime::partial_cmp` has it (`None`:
/// not comparable).
pub uninterp spec fn datetime_cmp(a: DateTimeValue, b: DateTimeValue) -> Option<Cmp3>;

/// The character `0` moved on by `v` (a digit where `v` is one).
pub open spec fn digit_char(v: int) -> char {
    (48 + v) as char
}

/// The last `n` decimal digits of `v`, zero-padded.
pub open spec fn last_digits(v: nat, n: nat) -> Seq<char>
    decreases n,
{
    if n == 0 {
        Seq::empty()
    } else {
        last_digits(v / 10, (n - 1) as nat) + seq![digit_char((v % 10) as int)]
    }
}

/// A two-place number as `speedate` writes it: the tens (not reduced below ten), then the
/// units.
pub open spec fn two_places(v: nat) -> Seq<char> {
    seq![digit_char((v / 10) as int), digit_char((v % 10) as int)]
}

/// How `speedate` shows a date: `YYYY-MM-DD`.
pub open spec fn date_display(d: DateValue) -> Seq<char> {
    last_digits(d.year as nat, 4) + "-"@ + two_places(d.month as nat) + "-"@ + two_places(d.day as nat)
}

/// How `speedate` shows a UTC offset: nothing where there is none, `Z` for zero, else the
/// sign and the hours and minutes of its magnitude.
pub open spec fn offset_display(o: Option<i32>) -> Seq<char> {
    match o {
        None => Seq::empty(),
        Some(v) => if v == 0 {
            "Z"@
        } else {
            let a: nat = if v < 0 {
                (-v) as nat
            } else {
                v as nat
            };
            seq![if v < 0 {
                '-'
            } else {
                '+'
            }] + two_places(a / 60 / 60) + ":"@ + two_places(a / 60 % 60)
        },
    }
}

/// How `speedate` shows a time of day with its offset: `HH:MM:SS`, then `.ffffff` where
/// the microseconds are not zero, then the offset.
pub open spec fn time_of_day_display(t: TimeValue, o: Option<i32>) -> Seq<char> {
    two_places(t.hour as nat) + ":"@ + two_places(t.minute as nat) + ":"@ + two_places(t.second as nat) + (if t.microsecond
        != 0 {
        "."@ + last_digits(t.microsecond as nat, 6)
    } else {
        Seq::empty()
    }) + offset_display(o)
}

/// How `speedate` shows a datetime: the date, `T`, and the time.
pub open spec fn datetime_display(d: DateTimeValue) -> Seq<char> {
    date_display(d.date) + "T"@ + time_of_day_display(d.time, d.offset)
}

/// What `Date::parse_str` gives for a string: the date, or the error's documentation
/// (empty where it has none).
pub uninterp spec fn date_parsed(s: Seq<char>) -> Result<DateValue, Seq<char>>;

/// What `DateTime::parse_str` gives for a string: the datetime, or the error's
/// documentation (empty where it has none).
pub uninterp spec fn datetime_parsed(s: Seq<char>) -> Result<DateTimeValue, Seq<char>>;

pub open spec fn parse_view<T>(r: Result<T, String>) -> Result<T, Seq<char>> {
    match r {
        Ok(v) => Ok(v),
        Err(m) => Err(m@),
    }
}

/// `DateTime::partial_cmp` of `speedate` on the two datetimes, which must be in range:
/// where both have an offset it compares timestamps, and `Date::timestamp` underflows on
/// day 0 of January.
#[verifier::external_body]
fn compare_datetimes(a: &DateTimeValue, b: &DateTimeValue) -> (r: Option<Cmp3>)
    requires
        valid_datetime(*a),
        valid_datetime(*b),
    ensures
        r == datetime_cmp(*a, *b),
{
    let f = |d: &DateTimeValue| DateTime {
        date: Date { year: d.date.year, month: d.date.month, day: d.date.day },
        time: Time { hour: d.time.hour, minute: d.time.minute, second: d.time.second, microsecond: d.time.microsecond, tz_offset: d.offset },
    };
    match f(a).partial_cmp(&f(b)) {
        Some(std::cmp::Ordering::Less) => Some(Cmp3::Less),
        Some(std::cmp::Ordering::Equal) => Some(Cmp3::Equal),
        Some(std::cmp::Ordering::Greater) => Some(Cmp3::Greater),
        None => None,
    }
}

/// `Date::to_string` of `speedate`.
#[verifier::external_body]
fn show_date(d: &DateValue) -> (r: String)
    ensures
        r@ == date_display(*d),
{
    Date { year: d.year, month: d.month, day: d.day }.to_string()
}

/// `DateTime::to_string` of `speedate`, for an offset of less than a day (its digits
/// overflow a byte for offsets of thousands of hours).
#[verifier::external_body]
fn show_datetime(d: &DateTimeValue) -> (r: String)
    requires
        valid_offset(d.offset),
    ensures
        r@ == datetime_display(*d),
{
    let t = Time { hour: d.time.hour, minute: d.time.minute, second: d.time.second, microsecond: d.time.microsecond, tz_offset: d.offset };
    DateTime { date: Date { year: d.date.year, month: d.date.month, day: d.date.day }, time: t }.to_string()
}

/// `Date::parse_str` of `speedate`, with `get_documentation` of the error (empty where
/// it has none).
#[verifier::external_body]
fn parse_date_str(s: &str) -> (r: Result<DateValue, String>)
    ensures
        parse_view(r) == date_parsed(s@),
{
    match Date::parse_str(s) {
        Ok(d) => Ok(DateValue { year: d.year, month: d.month, day: d.day }),
        Err(e) => Err(e.get_documentation().unwrap_or_default().to_string()),
    }
}

/// `DateTime::parse_str` of `speedate`, with `get_documentation` of the error (empty
/// where it has none).
#[verifier::external_body]
fn parse_datetime_str(s: &str) -> (r: Result<DateTimeValue, String>)
    ensures
        parse_view(r) == datetime_parsed(s@),
{
    match DateTime::parse_str(s) {
        Ok(d) => Ok(
            DateTimeValue {
                date: DateValue { year: d.date.year, month: d.date.month, day: d.date.day },
                time: TimeValue { hour: d.time.hour, minute: d.time.minute, second: d.time.second, microsecond: d.time.microsecond },
                offset: d.time.tz_offset,
            },
        ),
        Err(e) => Err(e.get_documentation().unwrap_or_default().to_string()),
    }
}


/// The bounds of a date or datetime validator.
#[derive(Debug)]
pub struct Bounds<V> {
    pub le: Option<V>,
    pub lt: Option<V>,
    pub ge: Option<V>,
    pub gt: Option<V>,
}

/// The four bounds of a date or datetime validator.
#[derive(Debug, PartialEq, Eq, Structural, Clone, Copy)]
pub enum BoundKind {
    Le,
    Lt,
    Ge,
    Gt,
}

/// Whether `c` (how the value compares with a bound) satisfies `le`, `lt`, `ge` or `gt`.
pub open spec fn cmp_le(c: Option<Cmp3>) -> bool {
    c == Some(Cmp3::Less) || c == Some(Cmp3::Equal)
}

pub open spec fn cmp_ge(c: Option<Cmp3>) -> bool {
    c == Some(Cmp3::Greater) || c == Some(Cmp3::Equal)
}

#[derive(Debug)]
pub struct DateValidator {
    pub strict: bool,
    pub bounds: Bounds<DateValue>,
}

/// The first bound (in the order `le`, `lt`, `ge`, `gt`) that `d` breaks, as its kind.
pub open spec fn date_bound_broken(b: Bounds<DateValue>, d: DateValue) -> Option<(BoundKind, DateValue)> {
    if b.le matches Some(c) && !cmp_le(Some(date_cmp(d, c))) {
        Some((BoundKind::Le, b.le->Some_0))
    } else if b.lt matches Some(c) && date_cmp(d, c) != Cmp3::Less {
        Some((BoundKind::Lt, b.lt->Some_0))
    } else if b.ge matches Some(c) && !cmp_ge(Some(date_cmp(d, c))) {
        Some((BoundKind::Ge, b.ge->Some_0))
    } else if b.gt matches Some(c) && date_cmp(d, c) != Cmp3::Greater {
        Some((BoundKind::Gt, b.gt->Some_0))
    } else {
        None
    }
}

/// The error of breaking the bound of kind `k` whose value shows as `text`.
pub open spec fn bound_error(k: BoundKind, text: Seq<char>, e: ErrorType) -> bool {
    match e {
        ErrorType::LessThanEqualText { le_text } => k == BoundKind::Le && le_text@ == text,
        ErrorType::LessThanText { lt_text } => k == BoundKind::Lt && lt_text@ == text,
        ErrorType::GreaterThanEqualText { ge_text } => k == BoundKind::Ge && ge_text@ == text,
        ErrorType::GreaterThanText { gt_text } => k == BoundKind::Gt && gt_text@ == text,
        _ => false,
    }
}

/// `r` is the one error, at the root, of breaking the bound `k` shown as `text`.
pub open spec fn is_bound_error(r: ValError, k: BoundKind, text: Seq<char>) -> bool {
    r matches ValError::LineErrors(es) && es@.len() == 1 && es@[0].loc@.len() == 0 && bound_error(k, text, es@[0].error_type)
}

fn bound_error_of(k: BoundKind, text: String) -> (r: ValError)
    ensures
        is_bound_error(r, k, text@),
{
    let e = match k {
        BoundKind::Le => ErrorType::LessThanEqualText { le_text: text },
        BoundKind::Lt => ErrorType::LessThanText { lt_text: text },
        BoundKind::Ge => ErrorType::GreaterThanEqualText { ge_text: text },
        BoundKind::Gt => ErrorType::GreaterThanText { gt_text: text },
    };
    root_error(e)
}

fn date_order(a: &DateValue, b: &DateValue) -> (r: Cmp3)
    ensures
        r == date_cmp(*a, *b),
{
    if a.year < b.year {
        Cmp3::Less
    } else if a.year > b.year {
        Cmp3::Greater
    } else if a.month < b.month {
        Cmp3::Less
    } else if a.month > b.month {
        Cmp3::Greater
    } else if a.day < b.day {
        Cmp3::Less
    } else if a.day > b.day {
        Cmp3::Greater
    } else {
        Cmp3::Equal
    }
}

/// The value that a date validator reads from its input.
#[derive(Debug)]
pub enum DateRead {
    /// A date.
    Date(DateValue),
    /// The input's own failure to be read as a date (or, outside strict mode, as a
    /// datetime too: the datetime's outcome).
    Failed { date_error: ValError, datetime: Option<Result<DateTimeValue, ValError>> },
}

/// Whether `es` are all datetime parsing errors.
pub open spec fn all_datetime_parsing(es: Seq<ValLineError>) -> bool {
    forall|i: int| 0 <= i < es.len() ==> #[trigger] es[i].error_type == ErrorType::DateTimeParsing
}

/// The date that a datetime with no time and no offset stands for, else the error: the
/// datetime's parse errors as date-from-datetime parse errors (where they all are parse
/// errors; otherwise the date's own error), or an inexact date.
pub open spec fn spec_date_from_datetime(date_err: ValError, dt: Result<DateTimeValue, ValError>, r: Result<DateValue, ValError>) -> bool {
    match dt {
        Ok(v) => if v.time == (TimeValue { hour: 0, minute: 0, second: 0, microsecond: 0 }) && v.offset is None {
            r == Ok::<DateValue, ValError>(v.date)
        } else {
            r matches Err(e) && is_single_error(e, ErrorType::DateFromDatetimeInexact)
        },
        Err(ValError::LineErrors(es)) => if all_datetime_parsing(es@) {
            r matches Err(ValError::LineErrors(es2)) && errors_view(es2@) == Seq::new(
                es@.len(),
                |i: int| (ErrorType::DateFromDatetimeParsing, es@[i].loc@),
            )
        } else {
            r == Err::<DateValue, ValError>(date_err)
        },
        Err(e) => r == Err::<DateValue, ValError>(e),
    }
}

/// Reads a date from a datetime (see `spec_date_from_datetime`).
pub fn date_from_datetime(date_err: ValError, dt: Result<DateTimeValue, ValError>) -> (r: Result<DateValue, ValError>)
    ensures
        spec_date_from_datetime(date_err, dt, r),
{
    match dt {
        Ok(v) => if v.time.hour == 0 && v.time.minute == 0 && v.time.second == 0 && v.time.microsecond == 0 && v.offset.is_none() {
            Ok(v.date)
        } else {
            Err(root_error(ErrorType::DateFromDatetimeInexact))
        },
        Err(ValError::LineErrors(es)) => {
            let ghost orig = es@;
            let ghost esg = es;
            let mut rest = es;
            let mut out: Vec<ValLineError> = Vec::new();
            let ghost mut i: int = 0;
            while rest.len() > 0
                invariant
                    0 <= i <= orig.len(),
                    dt == Err::<DateTimeValue, ValError>(ValError::LineErrors(esg)),
                    esg@ == orig,
                    rest@ == orig.subrange(i, orig.len() as int),
                    out@.len() == i,
                    all_datetime_parsing(orig.subrange(0, i)),
                    errors_view(out@) =~= Seq::new(i as nat, |k: int| (ErrorType::DateFromDatetimeParsing, orig[k].loc@)),
                decreases rest.len(),
            {
                let e = rest.remove(0);
                proof {
                    assert(e == orig[i]);
                }
                match e.error_type {
                    ErrorType::DateTimeParsing => {},
                    _ => {
                        proof {
                            assert(!all_datetime_parsing(orig));
                        }
                        return Err(date_err);
                    },
                }
                let ghost old_out = out@;
                out.push(e.with_type(ErrorType::DateFromDatetimeParsing));
                proof {
                    assert forall|k: int| 0 <= k < i implies #[trigger] errors_view(out@)[k] == errors_view(old_out)[k] by {
                        assert(out@[k] == old_out[k]);
                    }
                    assert(all_datetime_parsing(orig.subrange(0, i + 1))) by {
                        assert forall|k: int| 0 <= k < i + 1 implies #[trigger] orig.subrange(0, i + 1)[k].error_type
                            == ErrorType::DateTimeParsing by {
                            if k < i {
                                assert(orig.subrange(0, i)[k] == orig[k]);
                            }
                        }
                    }
                    i = i + 1;
                    assert(errors_view(out@) =~= Seq::new(i as nat, |k: int| (ErrorType::DateFromDatetimeParsing, orig[k].loc@)));
                }
            }
            proof {
                assert(orig.subrange(0, orig.len() as int) =~= orig);
            }
            Err(ValError::LineErrors(out))
        },
        Err(e) => Err(e),
    }
}

/// A date as one number, which orders dates by year, then month, then day.
pub open spec fn date_rank(d: DateValue) -> int {
    d.year * 65536 + d.month * 256 + d.day
}

/// The value of the bound of kind `k` among `b`, where it is set.
pub open spec fn bound_of<V>(b: Bounds<V>, k: BoundKind) -> Option<V> {
    match k {
        BoundKind::Le => b.le,
        BoundKind::Lt => b.lt,
        BoundKind::Ge => b.ge,
        BoundKind::Gt => b.gt,
    }
}

/// Whether the date `d` keeps the bound of kind `k` at `c`: not after it (`le`), before
/// it (`lt`), not before it (`ge`), after it (`gt`).
pub open spec fn date_keeps(k: BoundKind, c: DateValue, d: DateValue) -> bool {
    match k {
        BoundKind::Le => date_rank(d) <= date_rank(c),
        BoundKind::Lt => date_rank(d) < date_rank(c),
        BoundKind::Ge => date_rank(d) >= date_rank(c),
        BoundKind::Gt => date_rank(d) > date_rank(c),
    }
}

/// Whether the date `d` keeps the bound of kind `k` of `b`, where it is set.
pub open spec fn date_keeps_bound(b: Bounds<DateValue>, k: BoundKind, d: DateValue) -> bool {
    match bound_of(b, k) {
        Some(c) => date_keeps(k, c, d),
        None => true,
    }
}

/// Whether the date `d` keeps every bound of `b` that is set.
pub open spec fn date_within(b: Bounds<DateValue>, d: DateValue) -> bool {
    forall|k: BoundKind| #[trigger] date_keeps_bound(b, k, d)
}

/// The bounds that come before the kind `k` in the order `le`, `lt`, `ge`, `gt`.
pub open spec fn comes_before(j: BoundKind, k: BoundKind) -> bool {
    match (j, k) {
        (BoundKind::Le, BoundKind::Lt) | (BoundKind::Le, BoundKind::Ge) | (BoundKind::Le, BoundKind::Gt) => true,
        (BoundKind::Lt, BoundKind::Ge) | (BoundKind::Lt, BoundKind::Gt) => true,
        (BoundKind::Ge, BoundKind::Gt) => true,
        _ => false,
    }
}

/// The order of dates is that of their ranks.
pub proof fn date_order_is_rank_order(a: DateValue, b: DateValue)
    ensures
        date_cmp(a, b) == int_order(date_rank(a), date_rank(b)),
{
    let ra = a.month * 256 + a.day;
    let rb = b.month * 256 + b.day;
    assert(0 <= ra < 65536 && 0 <= rb < 65536);
    if a.year < b.year {
        assert(a.year * 65536 + 65536 <= b.year * 65536) by (nonlinear_arith)
            requires
                a.year < b.year,
        ;
    } else if a.year > b.year {
        assert(b.year * 65536 + 65536 <= a.year * 65536) by (nonlinear_arith)
            requires
                b.year < a.year,
        ;
    }
}

/// A date passes the bounds exactly where it keeps each of them (the bound set at `le` is
/// not before it, at `lt` after it, at `ge` not after it, at `gt` before it); and a date
/// that fails them is refused for the first bound it breaks, in the order `le`, `lt`,
/// `ge`, `gt`.
pub proof fn date_bounds_law(b: Bounds<DateValue>, d: DateValue)
    ensures
        (date_bound_broken(b, d) is None) == date_within(b, d),
        date_bound_broken(b, d) matches Some((k, c)) ==> (bound_of(b, k) == Some(c) && !date_keeps(k, c, d)
            && forall|j: BoundKind| comes_before(j, k) ==> #[trigger] date_keeps_bound(b, j, d)),
{
    if let Some(c) = b.le {
        date_order_is_rank_order(d, c);
    }
    if let Some(c) = b.lt {
        date_order_is_rank_order(d, c);
    }
    if let Some(c) = b.ge {
        date_order_is_rank_order(d, c);
    }
    if let Some(c) = b.gt {
        date_order_is_rank_order(d, c);
    }
    if date_bound_broken(b, d) is None {
        assert forall|k: BoundKind| #[trigger] date_keeps_bound(b, k, d) by {
            match k {
                BoundKind::Le => {},
                BoundKind::Lt => {},
                BoundKind::Ge => {},
                BoundKind::Gt => {},
            }
        }
    } else {
        let (k, c) = date_bound_broken(b, d)->Some_0;
        assert(bound_of(b, k) == Some(c));
        assert(!date_keeps_bound(b, k, d));
        assert(!date_within(b, d));
    }
}

impl DateValidator {
    /// Checks `d` against the bounds, in the order `le`, `lt`, `ge`, `gt`: the date, or the
    /// error of the first bound it breaks (with the bound as `speedate` shows it).
    pub fn validation_comparison(&self, d: DateValue) -> (r: Result<DateValue, ValError>)
        ensures
            match date_bound_broken(self.bounds, d) {
                Some((k, c)) => r matches Err(e) && is_bound_error(e, k, date_display(c)),
                None => r == Ok::<DateValue, ValError>(d),
            },
            (r is Ok) == date_within(self.bounds, d),
            r matches Ok(v) ==> v == d,
    {
        proof {
            date_bounds_law(self.bounds, d);
        }
        if let Some(c) = &self.bounds.le {
            let o = date_order(&d, c);
            if !(o == Cmp3::Less || o == Cmp3::Equal) {
                return Err(bound_error_of(BoundKind::Le, show_date(c)));
            }
        }
        if let Some(c) = &self.bounds.lt {
            if date_order(&d, c) != Cmp3::Less {
                return Err(bound_error_of(BoundKind::Lt, show_date(c)));
            }
        }
        if let Some(c) = &self.bounds.ge {
            let o = date_order(&d, c);
            if !(o == Cmp3::Greater || o == Cmp3::Equal) {
                return Err(bound_error_of(BoundKind::Ge, show_date(c)));
            }
        }
        if let Some(c) = &self.bounds.gt {
            if date_order(&d, c) != Cmp3::Greater {
                return Err(bound_error_of(BoundKind::Gt, show_date(c)));
            }
        }
        Ok(d)
    }

    /// Validates what was read of the input: a date, or (outside strict mode, where the
    /// date could not be read for a reason other than an internal error) the date of a
    /// datetime with no time; then the bounds.
    pub fn validate(&self, read: DateRead) -> (r: Result<DateValue, ValError>)
        requires
            read matches DateRead::Failed { date_error, datetime } ==> (!self.strict && !(date_error is Internal)
                ==> datetime is Some),
        ensures
            read matches DateRead::Date(d) ==> ((r is Ok) == date_within(self.bounds, d)),
            r matches Ok(v) ==> date_within(self.bounds, v),
            match read {
                DateRead::Date(d) => match date_bound_broken(self.bounds, d) {
                    Some((k, c)) => r matches Err(e) && is_bound_error(e, k, date_display(c)),
                    None => r == Ok::<DateValue, ValError>(d),
                },
                DateRead::Failed { date_error, datetime } => if self.strict || date_error is Internal {
                    r == Err::<DateValue, ValError>(date_error)
                } else {
                    exists|d: Result<DateValue, ValError>|
                        spec_date_from_datetime(date_error, datetime->Some_0, d) && match d {
                            Ok(v) => match date_bound_broken(self.bounds, v) {
                                Some((k, c)) => r matches Err(e) && is_bound_error(e, k, date_display(c)),
                                None => r == Ok::<DateValue, ValError>(v),
                            },
                            Err(e) => r == Err::<DateValue, ValError>(e),
                        }
                },
            },
    {
        match read {
            DateRead::Date(d) => self.validation_comparison(d),
            DateRead::Failed { date_error, datetime } => {
                if self.strict || matches!(date_error, ValError::Internal(_)) {
                    return Err(date_error);
                }
                let dt = match datetime {
                    Some(dt) => dt,
                    None => {
                        return Err(date_error);
                    },
                };
                let ghost dtg = dt;
                let ghost de = date_error;
                let d = date_from_datetime(date_error, dt);
                let ghost dg = d;
                let r = match d {
                    Ok(v) => self.validation_comparison(v),
                    Err(e) => Err(e),
                };
                proof {
                    assert(spec_date_from_datetime(de, dtg, dg));
                }
                r
            },
        }
    }
}

/// Reads a bound of a date validator from its string form: the date, or the error.
pub fn bound_date(s: &str) -> (r: Result<DateValue, String>)
    ensures
        match date_parsed(s@) {
            Ok(d) => r == Ok::<DateValue, String>(d),
            Err(doc) => r matches Err(m) && m@ == "Unable to parse date "@ + s@ + ", error: "@ + doc,
        },
{
    match parse_date_str(s) {
        Ok(d) => Ok(d),
        Err(doc) => {
            let mut m = String::from_str("Unable to parse date ");
            m.append(s);
            m.append(", error: ");
            m.append(doc.as_str());
            Err(m)
        },
    }
}

/// Reads a bound of a datetime validator from its string form: the datetime, or the error.
pub fn bound_datetime(s: &str) -> (r: Result<DateTimeValue, String>)
    ensures
        match datetime_parsed(s@) {
            Ok(d) => r == Ok::<DateTimeValue, String>(d),
            Err(doc) => r matches Err(m) && m@ == "Unable to parse datetime "@ + s@ + ", error: "@ + doc,
        },
{
    match parse_datetime_str(s) {
        Ok(d) => Ok(d),
        Err(doc) => {
            let mut m = String::from_str("Unable to parse datetime ");
            m.append(s);
            m.append(", error: ");
            m.append(doc.as_str());
            Err(m)
        },
    }
}

#[derive(Debug)]
pub struct DateTimeValidator {
    pub strict: bool,
    pub bounds: Bounds<DateTimeValue>,
}

/// The first bound (in the order `le`, `lt`, `ge`, `gt`) that `d` breaks.
pub open spec fn datetime_bound_broken(b: Bounds<DateTimeValue>, d: DateTimeValue) -> Option<(BoundKind, DateTimeValue)> {
    if b.le matches Some(c) && !cmp_le(datetime_cmp(d, c)) {
        Some((BoundKind::Le, b.le->Some_0))
    } else if b.lt matches Some(c) && datetime_cmp(d, c) != Some(Cmp3::Less) {
        Some((BoundKind::Lt, b.lt->Some_0))
    } else if b.ge matches Some(c) && !cmp_ge(datetime_cmp(d, c)) {
        Some((BoundKind::Ge, b.ge->Some_0))
    } else if b.gt matches Some(c) && datetime_cmp(d, c) != Some(Cmp3::Greater) {
        Some((BoundKind::Gt, b.gt->Some_0))
    } else {
        None
    }
}

/// Whether the datetime `d` keeps the bound of kind `k` of `b` (where it is set), as
/// `speedate` orders datetimes: not after it (`le`), before it (`lt`), not before it
/// (`ge`), after it (`gt`); datetimes that it cannot order keep no bound.
pub open spec fn datetime_keeps_bound(b: Bounds<DateTimeValue>, k: BoundKind, d: DateTimeValue) -> bool {
    match bound_of(b, k) {
        Some(c) => match k {
            BoundKind::Le => datetime_cmp(d, c) == Some(Cmp3::Less) || datetime_cmp(d, c) == Some(Cmp3::Equal),
            BoundKind::Lt => datetime_cmp(d, c) == Some(Cmp3::Less),
            BoundKind::Ge => datetime_cmp(d, c) == Some(Cmp3::Greater) || datetime_cmp(d, c) == Some(Cmp3::Equal),
            BoundKind::Gt => datetime_cmp(d, c) == Some(Cmp3::Greater),
        },
        None => true,
    }
}

/// A datetime passes the bounds exactly where it keeps each of them; one that fails them
/// is refused for the first bound it breaks, in the order `le`, `lt`, `ge`, `gt`.
pub proof fn datetime_bounds_law(b: Bounds<DateTimeValue>, d: DateTimeValue)
    ensures
        (datetime_bound_broken(b, d) is None) == (forall|k: BoundKind| #[trigger] datetime_keeps_bound(b, k, d)),
        datetime_bound_broken(b, d) matches Some((k, c)) ==> (bound_of(b, k) == Some(c) && !datetime_keeps_bound(b, k, d)
            && forall|j: BoundKind| comes_before(j, k) ==> #[trigger] datetime_keeps_bound(b, j, d)),
{
    if datetime_bound_broken(b, d) is None {
        assert forall|k: BoundKind| #[trigger] datetime_keeps_bound(b, k, d) by {
            match k {
                BoundKind::Le => {},
                BoundKind::Lt => {},
                BoundKind::Ge => {},
                BoundKind::Gt => {},
            }
        }
    } else {
        let (k, c) = datetime_bound_broken(b, d)->Some_0;
        assert(!datetime_keeps_bound(b, k, d));
    }
}

impl DateTimeValidator {
    /// Its bounds are in range (see `valid_datetime`).
    pub open spec fn bounds_valid(self) -> bool {
        &&& (self.bounds.le matches Some(c) ==> valid_datetime(c))
        &&& (self.bounds.lt matches Some(c) ==> valid_datetime(c))
        &&& (self.bounds.ge matches Some(c) ==> valid_datetime(c))
        &&& (self.bounds.gt matches Some(c) ==> valid_datetime(c))
    }

    /// Checks `d` against the bounds, in the order `le`, `lt`, `ge`, `gt` (compared as
    /// `speedate` compares datetimes): the datetime, or the error of the first bound it
    /// breaks (with the bound as `speedate` shows it).
    pub fn validation_comparison(&self, d: DateTimeValue) -> (r: Result<DateTimeValue, ValError>)
        requires
            self.bounds_valid(),
            valid_datetime(d),
        ensures
            match datetime_bound_broken(self.bounds, d) {
                Some((k, c)) => r matches Err(e) && is_bound_error(e, k, datetime_display(c)),
                None => r == Ok::<DateTimeValue, ValError>(d),
            },
            (r is Ok) == (forall|k: BoundKind| #[trigger] datetime_keeps_bound(self.bounds, k, d)),
    {
        proof {
            datetime_bounds_law(self.bounds, d);
        }
        if let Some(c) = &self.bounds.le {
            let o = compare_datetimes(&d, c);
            if !(o == Some(Cmp3::Less) || o == Some(Cmp3::Equal)) {
                return Err(bound_error_of(BoundKind::Le, show_datetime(c)));
            }
        }
        if let Some(c) = &self.bounds.lt {
            if compare_datetimes(&d, c) != Some(Cmp3::Less) {
                return Err(bound_error_of(BoundKind::Lt, show_datetime(c)));
            }
        }
        if let Some(c) = &self.bounds.ge {
            let o = compare_datetimes(&d, c);
            if !(o == Some(Cmp3::Greater) || o == Some(Cmp3::Equal)) {
                return Err(bound_error_of(BoundKind::Ge, show_datetime(c)));
            }
        }
        if let Some(c) = &self.bounds.gt {
            if compare_datetimes(&d, c) != Some(Cmp3::Greater) {
                return Err(bound_error_of(BoundKind::Gt, show_datetime(c)));
            }
        }
        Ok(d)
    }

    /// Validates what was read of the input (a datetime, or the failure) against the
    /// bounds.
    pub fn validate(&self, read: Result<DateTimeValue, ValError>) -> (r: Result<DateTimeValue, ValError>)
        requires
            self.bounds_valid(),
            read matches Ok(d) ==> valid_datetime(d),
        ensures
            read matches Ok(d) ==> ((r is Ok) == (forall|k: BoundKind| #[trigger] datetime_keeps_bound(self.bounds, k, d))),
            match read {
                Ok(d) => match datetime_bound_broken(self.bounds, d) {
                    Some((k, c)) => r matches Err(e) && is_bound_error(e, k, datetime_display(c)),
                    None => r == Ok::<DateTimeValue, ValError>(d),
                },
                Err(e) => r == Err::<DateTimeValue, ValError>(e),
            },
    {
        match read {
            Ok(d) => self.validation_comparison(d),
            Err(e) => Err(e),
        }
    }
}

/// The digits of `n` (below 100), two of them.
pub open spec fn two_digits(n: int) -> Seq<char> {
    seq![(48 + n / 10) as char, (48 + n % 10) as char]
}

/// The name of a fixed UTC offset of `seconds`: `UTC` for none; else the hours (with a
/// sign, `-` only where the offset is negative by an hour or more) and the minutes, two
/// digits each, of the offset's magnitude.
pub open spec fn spec_tzname(seconds: i32) -> Seq<char> {
    if seconds == 0 {
        "UTC"@
    } else {
        let a: int = if seconds < 0 {
            -seconds
        } else {
            seconds as int
        };
        let h = a / 60 / 60;
        let m = a / 60 % 60;
        (if seconds < 0 && h > 0 {
            seq!['-']
        } else {
            seq!['+']
        }) + two_digits(h) + seq![':'] + two_digits(m)
    }
}

fn digit(n: u32) -> (c: char)
    requires
        n < 10,
    ensures
        c == (48 + n) as char,
{
    if n == 0 { '0' } else if n == 1 { '1' } else if n == 2 { '2' } else if n == 3 { '3' } else if n == 4 { '4' } else if n
        == 5 { '5' } else if n == 6 { '6' } else if n == 7 { '7' } else if n == 8 { '8' } else { '9' }
}

/// The name of a fixed UTC offset of `seconds` (less than a day either way).
pub fn tzname(seconds: i32) -> (r: Vec<char>)
    requires
        -86400 < seconds < 86400,
    ensures
        r@ == spec_tzname(seconds),
{
    if seconds == 0 {
        proof {
            reveal_strlit("UTC");
        }
        let mut v: Vec<char> = Vec::new();
        v.push('U');
        v.push('T');
        v.push('C');
        proof {
            assert(v@ =~= "UTC"@);
        }
        return v;
    }
    let a: u32 = if seconds < 0 {
        (-seconds) as u32
    } else {
        seconds as u32
    };
    let ah: u32 = a / 60 / 60;
    let am: u32 = a / 60 % 60;
    assert(ah < 24);
    let mut v: Vec<char> = Vec::new();
    v.push(if seconds < 0 && ah > 0 { '-' } else { '+' });
    v.push(digit(ah / 10));
    v.push(digit(ah % 10));
    v.push(':');
    v.push(digit(am / 10));
    v.push(digit(am % 10));
    proof {
        assert(v@ =~= spec_tzname(seconds));
    }
    v
}

} // verus!

verus! {

/// A time of day with its UTC offset in seconds, where it has one.
#[derive(Debug, PartialEq, Eq, Structural, Clone, Copy)]
pub struct TimeTzValue {
    pub time: TimeValue,
    pub offset: Option<i32>,
}

/// The seconds since midnight of `t`.
pub open spec fn total_seconds(t: TimeValue) -> int {
    t.hour * 3600 + t.minute * 60 + t.second
}

/// How `x` and `y` compare.
pub open spec fn int_order(x: int, y: int) -> Cmp3 {
    if x < y {
        Cmp3::Less
    } else if x > y {
        Cmp3::Greater
    } else {
        Cmp3::Equal
    }
}

/// How two times compare: by their seconds since midnight (each less its offset, where
/// both have one), then by their microseconds.
pub open spec fn time_order(a: TimeTzValue, b: TimeTzValue) -> Cmp3 {
    let (x, y) = match (a.offset, b.offset) {
        (Some(oa), Some(ob)) => (total_seconds(a.time) - oa, total_seconds(b.time) - ob),
        _ => (total_seconds(a.time), total_seconds(b.time)),
    };
    match int_order(x, y) {
        Cmp3::Equal => int_order(a.time.microsecond as int, b.time.microsecond as int),
        c => c,
    }
}

/// How `speedate` shows a time.
pub open spec fn time_display(t: TimeTzValue) -> Seq<char> {
    time_of_day_display(t.time, t.offset)
}

/// `Time::partial_cmp` of `speedate`: by the seconds since midnight (each less its
/// offset where both times have one), then by the microseconds; it always gives an order.
#[verifier::external_body]
fn compare_times(a: &TimeTzValue, b: &TimeTzValue) -> (r: Cmp3)
    ensures
        r == time_order(*a, *b),
{
    let f = |t: &TimeTzValue| Time { hour: t.time.hour, minute: t.time.minute, second: t.time.second, microsecond: t.time.microsecond, tz_offset: t.offset };
    match f(a).partial_cmp(&f(b)) {
        Some(std::cmp::Ordering::Less) => Cmp3::Less,
        Some(std::cmp::Ordering::Greater) => Cmp3::Greater,
        _ => Cmp3::Equal,
    }
}

/// `Time::to_string` of `speedate`, for an offset of less than a day (its digits
/// overflow a byte for offsets of thousands of hours).
#[verifier::external_body]
fn show_time(t: &TimeTzValue) -> (r: String)
    requires
        valid_offset(t.offset),
    ensures
        r@ == time_display(*t),
{
    Time { hour: t.time.hour, minute: t.time.minute, second: t.time.second, microsecond: t.time.microsecond, tz_offset: t.offset }.to_string()
}

/// Whether the time `t` keeps the bound of kind `k` of `b` (where it is set), as `speedate`
/// orders times: not after it (`le`), before it (`lt`), not before it (`ge`), after it
/// (`gt`).
pub open spec fn time_keeps_bound(b: Bounds<TimeTzValue>, k: BoundKind, t: TimeTzValue) -> bool {
    match bound_of(b, k) {
        Some(c) => match k {
            BoundKind::Le => time_order(t, c) != Cmp3::Greater,
            BoundKind::Lt => time_order(t, c) == Cmp3::Less,
            BoundKind::Ge => time_order(t, c) != Cmp3::Less,
            BoundKind::Gt => time_order(t, c) == Cmp3::Greater,
        },
        None => true,
    }
}

/// A time passes the bounds exactly where it keeps each of them; one that fails them is
/// refused for the first bound it breaks, in the order `le`, `lt`, `ge`, `gt`.
pub proof fn time_bounds_law(b: Bounds<TimeTzValue>, t: TimeTzValue)
    ensures
        (time_bound_broken(b, t) is None) == (forall|k: BoundKind| #[trigger] time_keeps_bound(b, k, t)),
        time_bound_broken(b, t) matches Some((k, c)) ==> (bound_of(b, k) == Some(c) && !time_keeps_bound(b, k, t)
            && forall|j: BoundKind| comes_before(j, k) ==> #[trigger] time_keeps_bound(b, j, t)),
{
    if time_bound_broken(b, t) is None {
        assert forall|k: BoundKind| #[trigger] time_keeps_bound(b, k, t) by {
            match k {
                BoundKind::Le => {},
                BoundKind::Lt => {},
                BoundKind::Ge => {},
                BoundKind::Gt => {},
            }
        }
    } else {
        let (k, c) = time_bound_broken(b, t)->Some_0;
        assert(!time_keeps_bound(b, k, t));
    }
}

/// The `time` validator: bounds on the time, and whether the schema constrains its
/// timezone.
#[derive(Debug)]
pub struct TimeValidator {
    pub strict: bool,
    pub bounds: Bounds<TimeTzValue>,
    pub has_tz_constraint: bool,
}

/// The first bound (in the order `le`, `lt`, `ge`, `gt`) that `t` breaks.
pub open spec fn time_bound_broken(b: Bounds<TimeTzValue>, t: TimeTzValue) -> Option<(BoundKind, TimeTzValue)> {
    if b.le matches Some(c) && time_order(t, c) == Cmp3::Greater {
        Some((BoundKind::Le, b.le->Some_0))
    } else if b.lt matches Some(c) && time_order(t, c) != Cmp3::Less {
        Some((BoundKind::Lt, b.lt->Some_0))
    } else if b.ge matches Some(c) && time_order(t, c) == Cmp3::Less {
        Some((BoundKind::Ge, b.ge->Some_0))
    } else if b.gt matches Some(c) && time_order(t, c) != Cmp3::Greater {
        Some((BoundKind::Gt, b.gt->Some_0))
    } else {
        None
    }
}

impl TimeValidator {
    /// Validates what was read of the input (a time, or the failure): the time must keep
    /// the bounds, in the order `le`, `lt`, `ge`, `gt` (the error names the first it breaks,
    /// with the bound as `speedate` shows it), and then pass the timezone check, whose
    /// outcome is `tz_outcome` (looked at only where the schema constrains the timezone).
    pub fn validate(&self, read: Result<TimeTzValue, ValError>, tz_outcome: Result<(), ValError>) -> (r: Result<
        TimeTzValue,
        ValError,
    >)
        requires
            self.bounds.le matches Some(c) ==> valid_offset(c.offset),
            self.bounds.lt matches Some(c) ==> valid_offset(c.offset),
            self.bounds.ge matches Some(c) ==> valid_offset(c.offset),
            self.bounds.gt matches Some(c) ==> valid_offset(c.offset),
        ensures
            match read {
                Err(e) => r == Err::<TimeTzValue, ValError>(e),
                Ok(t) => match time_bound_broken(self.bounds, t) {
                    Some((k, c)) => r matches Err(e) && is_bound_error(e, k, time_display(c)),
                    None => if self.has_tz_constraint && tz_outcome is Err {
                        r == Err::<TimeTzValue, ValError>(tz_outcome->Err_0)
                    } else {
                        r == Ok::<TimeTzValue, ValError>(t)
                    },
                },
            },
            read matches Ok(t) ==> (r is Ok ==> (forall|k: BoundKind| #[trigger] time_keeps_bound(self.bounds, k, t))),
            read matches Ok(t) ==> (!(forall|k: BoundKind| #[trigger] time_keeps_bound(self.bounds, k, t)) ==> r is Err),
    {
        proof {
            if let Ok(t) = read {
                time_bounds_law(self.bounds, t);
            }
        }
        let t = match read {
            Ok(t) => t,
            Err(e) => {
                return Err(e);
            },
        };
        if let Some(c) = &self.bounds.le {
            if compare_times(&t, c) == Cmp3::Greater {
                return Err(bound_error_of(BoundKind::Le, show_time(c)));
            }
        }
        if let Some(c) = &self.bounds.lt {
            if compare_times(&t, c) != Cmp3::Less {
                return Err(bound_error_of(BoundKind::Lt, show_time(c)));
            }
        }
        if let Some(c) = &self.bounds.ge {
            if compare_times(&t, c) == Cmp3::Less {
                return Err(bound_error_of(BoundKind::Ge, show_time(c)));
            }
        }
        if let Some(c) = &self.bounds.gt {
            if compare_times(&t, c) != Cmp3::Greater {
                return Err(bound_error_of(BoundKind::Gt, show_time(c)));
            }
        }
        if self.has_tz_constraint {
            if let Err(e) = tz_outcome {
                return Err(e);
            }
        }
        Ok(t)
    }
}

} // verus!
