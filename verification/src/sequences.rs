//! The validators of collections (`list`, `tuple`, `set`, `frozenset`, `dict`): which
//! inputs they iterate and how, their length checks, which validator takes each item of
//! a positional tuple, and where the errors of a dict's entries are located.
use vstd::prelude::*;
use crate::constraints::root_error;
use crate::errors::{error_with_outer, errors_view, errors_with_outer, ErrorType, LocItem, ValError};
use crate::union::{join_names, joined};

verus! {

/// The `TooShort` or `TooLong` error that the length checks of a `field_type` give, if any.
pub open spec fn spec_length_error(field_type: Seq<char>, min_length: Option<usize>, max_length: Option<usize>, len: usize) -> Option<
    (bool, usize),
> {
    if min_length matches Some(m) && len < m {
        Some((true, min_length->Some_0))
    } else if max_length matches Some(m) && len > m {
        Some((false, max_length->Some_0))
    } else {
        None
    }
}

/// A length passes the length checks exactly where it lies within both bounds.
pub proof fn length_passes_iff_within_bounds(field_type: Seq<char>, min_length: Option<usize>, max_length: Option<usize>, len: usize)
    ensures
        (spec_length_error(field_type, min_length, max_length, len) is None) == ((min_length is None || min_length->Some_0
            <= len) && (max_length is None || len <= max_length->Some_0)),
{
}

/// `r` is the one error, at the root, that a length `len` breaking the bound `bound`
/// (a minimum where `too_short`) of a `field_type` gives.
pub open spec fn is_length_error(r: ValError, field_type: Seq<char>, too_short: bool, bound: usize, len: usize) -> bool {
    r matches ValError::LineErrors(es) && es@.len() == 1 && es@[0].loc@.len() == 0 && if too_short {
        es@[0].error_type matches ErrorType::TooShort { field_type: Some(ft), min_length, actual_length } && ft@
            == field_type && min_length == bound && actual_length == len
    } else {
        es@[0].error_type matches ErrorType::TooLong { field_type: Some(ft), max_length, actual_length } && ft@
            == field_type && max_length == bound && actual_length == len
    }
}

/// Checks a length `len` against a minimum and a maximum (the minimum first).
pub fn length_check(field_type: &str, min_length: Option<usize>, max_length: Option<usize>, len: usize) -> (r: Result<
    (),
    ValError,
>)
    ensures
        match spec_length_error(field_type@, min_length, max_length, len) {
            Some((too_short, bound)) => r matches Err(e) && is_length_error(e, field_type@, too_short, bound, len),
            None => r is Ok,
        },
{
    if let Some(m) = min_length {
        if len < m {
            return Err(
                root_error(ErrorType::TooShort { field_type: Some(String::from_str(field_type)), min_length: m, actual_length: len }),
            );
        }
    }
    if let Some(m) = max_length {
        if len > m {
            return Err(
                root_error(ErrorType::TooLong { field_type: Some(String::from_str(field_type)), max_length: m, actual_length: len }),
            );
        }
    }
    Ok(())
}

/// Checks a length `len` against a minimum only.
pub fn min_length_check(field_type: &str, min_length: Option<usize>, len: usize) -> (r: Result<(), ValError>)
    ensures
        match spec_length_error(field_type@, min_length, None, len) {
            Some((too_short, bound)) => r matches Err(e) && is_length_error(e, field_type@, too_short, bound, len),
            None => r is Ok,
        },
{
    length_check(field_type, min_length, None, len)
}

/// What a collection validator is given, as far as it decides how to iterate it.
#[derive(Debug, PartialEq, Eq, Structural, Clone, Copy)]
pub enum IterableKind {
    JsonArray,
    JsonObject,
    List,
    Tuple,
    PythonSet,
    PythonFrozenSet,
    Dict,
    Mapping,
    Str,
    Bytes,
    /// Any other iterable (a generator, dict keys, a sequence, ...).
    Other,
}

/// How a collection validator goes through an input that it accepts.
#[derive(Debug, PartialEq, Eq, Structural, Clone, Copy)]
pub enum Iteration {
    /// Its own items, as they are.
    Direct,
    /// As a sequence of items (for a mapping: of key-value pairs); this conversion can
    /// still fail.
    Converted,
}

/// How a tuple validator goes through an input of the kind `kind`, or `None` where it
/// does not accept it.
pub open spec fn tuple_iteration(kind: IterableKind, strict: bool) -> Option<Iteration> {
    match kind {
        IterableKind::JsonArray | IterableKind::Tuple => Some(Iteration::Direct),
        IterableKind::Str | IterableKind::Bytes | IterableKind::Dict | IterableKind::Mapping => None,
        _ => if strict {
            None
        } else {
            Some(Iteration::Converted)
        },
    }
}

/// The one error `e`, at the root.
pub open spec fn is_root_error(r: ValError, e: ErrorType) -> bool {
    r matches ValError::LineErrors(es) && errors_view(es@) == seq![(e, Seq::<LocItem>::empty())]
}

/// How a tuple validator goes through the input (`None`: not an iterable), or the
/// "not a tuple" error.
pub fn tuple_iteration_of(kind: Option<IterableKind>, strict: bool) -> (r: Result<Iteration, ValError>)
    ensures
        match kind {
            Some(k) => match tuple_iteration(k, strict) {
                Some(it) => r == Ok::<Iteration, ValError>(it),
                None => r matches Err(e) && is_root_error(e, ErrorType::TupleType),
            },
            None => r matches Err(e) && is_root_error(e, ErrorType::TupleType),
        },
{
    match kind {
        Some(IterableKind::JsonArray) | Some(IterableKind::Tuple) => Ok(Iteration::Direct),
        Some(IterableKind::Str) | Some(IterableKind::Bytes) | Some(IterableKind::Dict) | Some(IterableKind::Mapping) => Err(
            root_error(ErrorType::TupleType),
        ),
        Some(_) => if strict {
            Err(root_error(ErrorType::TupleType))
        } else {
            Ok(Iteration::Converted)
        },
        None => Err(root_error(ErrorType::TupleType)),
    }
}

/// Whether strict mode changes what a collection validator accepts, given what its inner
/// validators answer (looked at under ultra strictness only).
pub fn collection_strict_behavior(ultra_strict: bool, inner: &Vec<bool>) -> (r: bool)
    ensures
        r == (!ultra_strict || exists|i: int| 0 <= i < inner@.len() && #[trigger] inner@[i]),
{
    if !ultra_strict {
        return true;
    }
    let mut i: usize = 0;
    while i < inner.len()
        invariant
            i <= inner.len(),
            forall|j: int| 0 <= j < i ==> !#[trigger] inner@[j],
        decreases inner.len() - i,
    {
        if inner[i] {
            return true;
        }
        i = i + 1;
    }
    false
}

/// A tuple validator of any number of items, all validated by one validator.
#[derive(Debug)]
pub struct TupleVariableValidator {
    pub strict: bool,
    pub min_length: usize,
    pub max_length: Option<usize>,
    pub name: String,
}

impl TupleVariableValidator {
    /// Builds the validator; its name shows the items' validator.
    pub fn build(item_name: &str, strict: bool, min_length: Option<usize>, max_length: Option<usize>) -> (r: Self)
        ensures
            r.strict == strict,
            r.min_length == (match min_length {
                Some(m) => m,
                None => 0,
            }),
            r.max_length == max_length,
            r.name@ == "tuple["@ + item_name@ + ", ...]"@,
    {
        let mut name = String::from_str("tuple[");
        name.append(item_name);
        name.append(", ...]");
        let min_length = match min_length {
            Some(m) => m,
            None => 0,
        };
        TupleVariableValidator { strict, min_length, max_length, name }
    }
}

/// Which validator takes an item of a positional tuple.
#[derive(Debug, PartialEq, Eq, Structural, Clone, Copy)]
pub enum TupleItem {
    /// The validator of the position with this index.
    Position(usize),
    /// The validator of the items beyond the positions.
    Extra,
}

/// A tuple validator with one validator per position, and possibly one for the items
/// beyond them.
#[derive(Debug)]
pub struct TuplePositionalValidator {
    pub strict: bool,
    /// The number of positions.
    pub positions: usize,
    pub has_extra_validator: bool,
    pub name: String,
}

impl TuplePositionalValidator {
    /// Builds the validator; its name lists the positions' validators.
    pub fn build(item_names: &Vec<String>, strict: bool, has_extra_validator: bool) -> (r: Self)
        ensures
            r.strict == strict,
            r.positions == item_names.len(),
            r.has_extra_validator == has_extra_validator,
            r.name@ == "tuple["@ + joined(item_names@, ", "@) + "]"@,
    {
        let mut name = String::from_str("tuple[");
        let descr = join_names(item_names, ", ");
        name.append(descr.as_str());
        name.append("]");
        TuplePositionalValidator { strict, positions: item_names.len(), has_extra_validator, name }
    }

    /// The validator of the next item, once `kept` items have been validated and kept:
    /// that of the next position, else the extra items' one; without it the tuple is too
    /// long.
    pub fn next_item(&self, kept: usize) -> (r: Result<TupleItem, ValError>)
        requires
            kept < usize::MAX,
        ensures
            kept < self.positions ==> r == Ok::<TupleItem, ValError>(TupleItem::Position(kept)),
            kept >= self.positions && self.has_extra_validator ==> r == Ok::<TupleItem, ValError>(TupleItem::Extra),
            kept >= self.positions && !self.has_extra_validator ==> (r matches Err(e) && is_length_error(
                e,
                "Tuple"@,
                false,
                self.positions,
                (kept + 1) as usize,
            )),
    {
        if kept < self.positions {
            Ok(TupleItem::Position(kept))
        } else if self.has_extra_validator {
            Ok(TupleItem::Extra)
        } else {
            Err(
                root_error(
                    ErrorType::TooLong {
                        field_type: Some(String::from_str("Tuple")),
                        max_length: self.positions,
                        actual_length: kept + 1,
                    },
                ),
            )
        }
    }

    /// The values of the positions that the input did not reach (from `kept` on), from
    /// their validators' defaults (`defaults`, asked for in order): the first without a
    /// default is missing, at its position; the first that fails ends it. The defaults
    /// after the one that ends it are not looked at.
    pub fn remaining_defaults<T>(&self, kept: usize, defaults: Vec<Result<Option<T>, ValError>>) -> (r: Result<
        Vec<T>,
        ValError,
    >)
        requires
            kept <= self.positions,
            defaults.len() == self.positions - kept,
            self.positions <= i64::MAX,
        ensures
            match first_without_default(defaults@, defaults.len() as int) {
                Some(i) => match defaults@[i] {
                    Err(e) => r == Err::<Vec<T>, ValError>(e),
                    Ok(_) => r matches Err(e) && is_missing_at(e, kept + i),
                },
                None => r matches Ok(v) && v@.len() == defaults.len() && forall|i: int|
                    0 <= i < v@.len() ==> defaults@[i] == Ok::<Option<T>, ValError>(Some(#[trigger] v@[i])),
            },
    {
        let ghost all = defaults@;
        let mut rest = defaults;
        let mut out: Vec<T> = Vec::new();
        let mut i: usize = 0;
        while rest.len() > 0
            invariant
                i <= all.len(),
                all == defaults@,
                all.len() == self.positions - kept,
                kept <= self.positions <= i64::MAX,
                rest@ == all.subrange(i as int, all.len() as int),
                out@.len() == i,
                first_without_default(all, i as int) is None,
                forall|j: int| 0 <= j < i ==> all[j] == Ok::<Option<T>, ValError>(Some(#[trigger] out@[j])),
            decreases rest.len(),
        {
            let d = rest.remove(0);
            let ghost dg = d;
            proof {
                assert(d == all[i as int]);
            }
            match d {
                Ok(Some(v)) => {
                    out.push(v);
                },
                Ok(None) => {
                    proof {
                        assert(first_without_default(all, i + 1) == Some(i as int));
                        lemma_first_without_default_stays(all, i + 1, all.len() as int);
                    }
                    let pos: usize = kept + i;
                    return Err(root_missing_at(pos));
                },
                Err(e) => {
                    proof {
                        assert(first_without_default(all, i + 1) == Some(i as int));
                        lemma_first_without_default_stays(all, i + 1, all.len() as int);
                        assert(dg == Err::<Option<T>, ValError>(e));
                    }
                    return Err(e);
                },
            }
            i = i + 1;
            proof {
                assert(all.subrange(i as int, all.len() as int) =~= rest@);
            }
        }
        Ok(out)
    }
}

/// The first among the first `n` default outcomes that is not a default.
pub open spec fn first_without_default<T>(defaults: Seq<Result<Option<T>, ValError>>, n: int) -> Option<int>
    decreases n,
{
    if n <= 0 {
        None
    } else {
        match first_without_default(defaults, n - 1) {
            Some(i) => Some(i),
            None => if defaults[n - 1] matches Ok(Some(_)) {
                None
            } else {
                Some(n - 1)
            },
        }
    }
}

proof fn lemma_first_without_default_stays<T>(defaults: Seq<Result<Option<T>, ValError>>, n: int, m: int)
    requires
        0 <= n <= m,
        first_without_default(defaults, n) is Some,
    ensures
        first_without_default(defaults, m) == first_without_default(defaults, n),
    decreases m - n,
{
    if m > n {
        lemma_first_without_default_stays(defaults, n, m - 1);
    }
}

/// `r` is the one "missing" error, at the position `pos`.
pub open spec fn is_missing_at(r: ValError, pos: int) -> bool {
    r matches ValError::LineErrors(es) && errors_view(es@) == seq![(ErrorType::Missing, seq![LocItem::I(pos as i64)])]
}

fn root_missing_at(pos: usize) -> (r: ValError)
    requires
        pos <= i64::MAX,
    ensures
        is_missing_at(r, pos as int),
{
    let mut es = Vec::new();
    es.push(crate::errors::ValLineError::new_with_loc(ErrorType::Missing, LocItem::I(pos as i64)));
    proof {
        assert(errors_view(es@) =~= seq![(ErrorType::Missing, seq![LocItem::I(pos as i64)])]);
    }
    ValError::LineErrors(es)
}

} // verus!

verus! {

/// The two kinds of set validator.
#[derive(Debug, PartialEq, Eq, Structural, Clone, Copy)]
pub enum SetKind {
    PlainSet,
    FrozenSet,
}

/// The "not a set" error of a set validator of the kind `k`.
pub open spec fn set_type_error(k: SetKind) -> ErrorType {
    match k {
        SetKind::PlainSet => ErrorType::SetType,
        SetKind::FrozenSet => ErrorType::FrozenSetType,
    }
}

/// How a set validator of the kind `k` goes through an input of the kind `kind`, or
/// `None` where it does not accept it: a JSON array or a set of its own kind always; in
/// lax mode any other iterable but a string, bytes or a mapping.
pub open spec fn set_iteration(k: SetKind, kind: IterableKind, strict: bool) -> Option<Iteration> {
    match kind {
        IterableKind::JsonArray => Some(Iteration::Direct),
        IterableKind::PythonSet if k == SetKind::PlainSet => Some(Iteration::Direct),
        IterableKind::PythonFrozenSet if k == SetKind::FrozenSet => Some(Iteration::Direct),
        IterableKind::Str | IterableKind::Bytes | IterableKind::Dict | IterableKind::Mapping => None,
        _ => if strict {
            None
        } else {
            Some(Iteration::Converted)
        },
    }
}

/// The factor by which a set's maximum length bounds the length of a generator read into it.
pub const MAX_LENGTH_GEN_MULTIPLE: usize = 10;

/// A `set` or `frozenset` validator.
#[derive(Debug)]
pub struct IntoSetValidator {
    pub kind: SetKind,
    pub strict: bool,
    pub min_length: usize,
    pub max_length: Option<usize>,
    /// The most items that are read from the input.
    pub generator_max_length: Option<usize>,
    pub name: String,
}

impl IntoSetValidator {
    /// The validator is the one that `build` makes of these values.
    pub open spec fn built_from(
        self,
        kind: SetKind,
        item_name: Seq<char>,
        strict: bool,
        min_length: Option<usize>,
        max_length: Option<usize>,
        generator_max_length: Option<usize>,
    ) -> bool {
        &&& self.kind == kind
        &&& self.strict == strict
        &&& self.min_length == (match min_length {
            Some(m) => m,
            None => 0,
        })
        &&& self.max_length == max_length
        &&& self.generator_max_length == (match generator_max_length {
            Some(g) => Some(g),
            None => match max_length {
                Some(m) => Some((m * 10) as usize),
                None => None,
            },
        })
        &&& self.name@ == (match kind {
            SetKind::PlainSet => "set"@,
            SetKind::FrozenSet => "frozenset"@,
        }) + "["@ + item_name + "]"@
    }

    /// Builds the validator; where the schema gives no bound on the items read, it is ten
    /// times the maximum length.
    pub fn build(
        kind: SetKind,
        item_name: &str,
        strict: bool,
        min_length: Option<usize>,
        max_length: Option<usize>,
        generator_max_length: Option<usize>,
    ) -> (r: Self)
        requires
            generator_max_length is None && max_length is Some ==> max_length->Some_0 * 10 <= usize::MAX,
        ensures
            r.built_from(kind, item_name@, strict, min_length, max_length, generator_max_length),
    {
        let generator_max_length = match generator_max_length {
            Some(g) => Some(g),
            None => match max_length {
                Some(m) => Some(m * MAX_LENGTH_GEN_MULTIPLE),
                None => None,
            },
        };
        let mut name = String::from_str(
            match kind {
                SetKind::PlainSet => "set",
                SetKind::FrozenSet => "frozenset",
            },
        );
        name.append("[");
        name.append(item_name);
        name.append("]");
        let min_length = match min_length {
            Some(m) => m,
            None => 0,
        };
        IntoSetValidator { kind, strict, min_length, max_length, generator_max_length, name }
    }

    /// Decides how the validator goes through the input (`None`: not an iterable, which is
    /// a "not a list" error), or the error of its kind ("not a set" or "not a frozenset").
    pub fn validate_into_set(&self, input: Option<IterableKind>, strict: Option<bool>) -> (r: Result<Iteration, ValError>)
        ensures
            match input {
                None => r matches Err(e) && is_root_error(e, ErrorType::ListType),
                Some(k) => match set_iteration(self.kind, k, crate::int_validator::unwrap_or(strict, self.strict)) {
                    Some(it) => r == Ok::<Iteration, ValError>(it),
                    None => r matches Err(e) && is_root_error(e, set_type_error(self.kind)),
                },
            },
    {
        let strict = match strict {
            Some(b) => b,
            None => self.strict,
        };
        let k = match input {
            None => {
                return Err(root_error(ErrorType::ListType));
            },
            Some(k) => k,
        };
        let accepted = match k {
            IterableKind::JsonArray => Some(Iteration::Direct),
            IterableKind::PythonSet => if self.kind == SetKind::PlainSet {
                Some(Iteration::Direct)
            } else if strict {
                None
            } else {
                Some(Iteration::Converted)
            },
            IterableKind::PythonFrozenSet => if self.kind == SetKind::FrozenSet {
                Some(Iteration::Direct)
            } else if strict {
                None
            } else {
                Some(Iteration::Converted)
            },
            IterableKind::Str | IterableKind::Bytes | IterableKind::Dict | IterableKind::Mapping => None,
            _ => if strict {
                None
            } else {
                Some(Iteration::Converted)
            },
        };
        match accepted {
            Some(it) => Ok(it),
            None => Err(
                root_error(
                    match self.kind {
                        SetKind::PlainSet => ErrorType::SetType,
                        SetKind::FrozenSet => ErrorType::FrozenSetType,
                    },
                ),
            ),
        }
    }
}

/// The `set` validator.
#[derive(Debug)]
pub struct SetValidator {
    pub inner: IntoSetValidator,
}

/// The `frozenset` validator.
#[derive(Debug)]
pub struct FrozenSetValidator {
    pub inner: IntoSetValidator,
}

impl SetValidator {
    pub fn build(item_name: &str, strict: bool, min_length: Option<usize>, max_length: Option<usize>, generator_max_length: Option<usize>) -> (r: Self)
        requires
            generator_max_length is None && max_length is Some ==> max_length->Some_0 * 10 <= usize::MAX,
        ensures
            r.inner.built_from(SetKind::PlainSet, item_name@, strict, min_length, max_length, generator_max_length),
    {
        SetValidator {
            inner: IntoSetValidator::build(SetKind::PlainSet, item_name, strict, min_length, max_length, generator_max_length),
        }
    }
}

impl FrozenSetValidator {
    pub fn build(item_name: &str, strict: bool, min_length: Option<usize>, max_length: Option<usize>, generator_max_length: Option<usize>) -> (r: Self)
        requires
            generator_max_length is None && max_length is Some ==> max_length->Some_0 * 10 <= usize::MAX,
        ensures
            r.inner.built_from(SetKind::FrozenSet, item_name@, strict, min_length, max_length, generator_max_length),
    {
        FrozenSetValidator {
            inner: IntoSetValidator::build(SetKind::FrozenSet, item_name, strict, min_length, max_length, generator_max_length),
        }
    }
}

/// A `dict` validator.
#[derive(Debug)]
pub struct DictValidator {
    pub strict: bool,
    pub min_length: Option<usize>,
    pub max_length: Option<usize>,
    pub name: String,
}

/// How a dict validator goes through an input of the kind `kind`: a dict or a JSON
/// object as it is, in lax mode any other iterable as key-value pairs.
pub open spec fn dict_iteration(kind: IterableKind, strict: bool) -> Option<Iteration> {
    match kind {
        IterableKind::Dict | IterableKind::JsonObject => Some(Iteration::Direct),
        _ => if strict {
            None
        } else {
            Some(Iteration::Converted)
        },
    }
}

/// The outcome of a dict's entry whose key is at `key_loc`, given the outcomes of its key
/// and (where the key passed) its value: the key's errors are located under the key and
/// `[key]`, the value's under the key.
pub open spec fn spec_entry_result<K, V>(key_loc: LocItem, key: Result<K, ValError>, value: Option<Result<V, ValError>>, r: Result<(K, V), ValError>) -> bool {
    match key {
        Err(e) => r matches Err(e2) && exists|e1: ValError, s: String|
            s@ == "[key]"@ && error_with_outer(e, LocItem::S(s), e1) && error_with_outer(e1, key_loc, e2),
        Ok(k) => match value->Some_0 {
            Ok(v) => r == Ok::<(K, V), ValError>((k, v)),
            Err(e) => r matches Err(e2) && error_with_outer(e, key_loc, e2),
        },
    }
}

/// The outcome of a dict's entry whose key is at `key_loc` (see `spec_entry_result`); the
/// value is validated only where the key passed, so its outcome is needed only then.
pub fn entry_result<K, V>(key_loc: &LocItem, key: Result<K, ValError>, value: Option<Result<V, ValError>>) -> (r: Result<
    (K, V),
    ValError,
>)
    requires
        key is Ok ==> value is Some,
    ensures
        spec_entry_result(*key_loc, key, value, r),
{
    match key {
        Err(e) => {
            let s = String::from_str("[key]");
            let e1 = e.with_outer_location(LocItem::S(s));
            Err(e1.with_outer_location(key_loc.duplicate()))
        },
        Ok(k) => match value {
            Some(Ok(v)) => Ok((k, v)),
            Some(Err(e)) => Err(e.with_outer_location(key_loc.duplicate())),
            None => {
                proof {
                    assert(false);
                }
                Err(ValError::Omit)
            },
        },
    }
}

impl DictValidator {
    /// Builds the validator; its name shows the keys' and the values' validators.
    pub fn build(key_name: &str, value_name: &str, strict: bool, min_length: Option<usize>, max_length: Option<usize>) -> (r: Self)
        ensures
            r.strict == strict,
            r.min_length == min_length,
            r.max_length == max_length,
            r.name@ == "dict["@ + key_name@ + ","@ + value_name@ + "]"@,
    {
        let mut name = String::from_str("dict[");
        name.append(key_name);
        name.append(",");
        name.append(value_name);
        name.append("]");
        DictValidator { strict, min_length, max_length, name }
    }

    /// How the validator goes through the input (`None`: not an iterable), or the "not a
    /// dict" error.
    pub fn iteration(&self, input: Option<IterableKind>, strict: Option<bool>) -> (r: Result<Iteration, ValError>)
        ensures
            match input {
                None => r matches Err(e) && is_root_error(e, ErrorType::DictType),
                Some(k) => match dict_iteration(k, crate::int_validator::unwrap_or(strict, self.strict)) {
                    Some(it) => r == Ok::<Iteration, ValError>(it),
                    None => r matches Err(e) && is_root_error(e, ErrorType::DictType),
                },
            },
    {
        let strict = match strict {
            Some(b) => b,
            None => self.strict,
        };
        match input {
            Some(IterableKind::Dict) | Some(IterableKind::JsonObject) => Ok(Iteration::Direct),
            Some(_) => if strict {
                Err(root_error(ErrorType::DictType))
            } else {
                Ok(Iteration::Converted)
            },
            None => Err(root_error(ErrorType::DictType)),
        }
    }
}

/// A `list` validator.
#[derive(Debug)]
pub struct ListValidator {
    pub strict: bool,
    pub has_item_validator: bool,
    pub min_length: Option<usize>,
    pub max_length: Option<usize>,
    pub name: String,
}

/// What a list validator read of its input: a list (with its items), or another sequence.
#[derive(Debug)]
pub enum ListRead<T> {
    List(Vec<T>),
    Other,
}

impl ListValidator {
    /// Builds the validator; its name shows the items' validator (`any` where it has none).
    pub fn build(item_name: Option<&str>, strict: bool, min_length: Option<usize>, max_length: Option<usize>) -> (r: Self)
        ensures
            r.strict == strict,
            r.has_item_validator == (item_name is Some),
            r.min_length == min_length,
            r.max_length == max_length,
            r.name@ == spec_collection_name("list"@, item_name),
    {
        let name = collection_name("list", item_name);
        ListValidator { strict, has_item_validator: item_name.is_some(), min_length, max_length, name }
    }

    /// The output of the validator, from what it read of the input and, where the items
    /// are not taken as they are, the outcome of converting them (`converted`: validated by
    /// the items' validator, or copied, within the maximum length). A list taken as it is
    /// is checked against both bounds; a converted output against the minimum.
    pub fn validate<T>(&self, read: Result<ListRead<T>, ValError>, converted: Option<Result<Vec<T>, ValError>>) -> (r: Result<
        Vec<T>,
        ValError,
    >)
        requires
            read is Ok && (self.has_item_validator || read->Ok_0 is Other) ==> converted is Some,
        ensures
            match read {
                Err(e) => r == Err::<Vec<T>, ValError>(e),
                Ok(ListRead::List(items)) if !self.has_item_validator => match spec_length_error(
                    "List"@,
                    self.min_length,
                    self.max_length,
                    items.len(),
                ) {
                    Some((too_short, bound)) => r matches Err(e) && is_length_error(e, "List"@, too_short, bound, items.len()),
                    None => r == Ok::<Vec<T>, ValError>(items),
                },
                Ok(_) => match converted->Some_0 {
                    Err(e) => r == Err::<Vec<T>, ValError>(e),
                    Ok(out) => match spec_length_error("List"@, self.min_length, None, out.len()) {
                        Some((too_short, bound)) => r matches Err(e) && is_length_error(e, "List"@, too_short, bound, out.len()),
                        None => r == Ok::<Vec<T>, ValError>(out),
                    },
                },
            },
    {
        let read = match read {
            Err(e) => {
                return Err(e);
            },
            Ok(read) => read,
        };
        if !self.has_item_validator {
            if let ListRead::List(items) = read {
                return match length_check("List", self.min_length, self.max_length, items.len()) {
                    Ok(()) => Ok(items),
                    Err(e) => Err(e),
                };
            }
        }
        let out = match converted {
            Some(Ok(out)) => out,
            Some(Err(e)) => {
                return Err(e);
            },
            None => {
                proof {
                    assert(false);
                }
                return Err(ValError::Omit);
            },
        };
        match min_length_check("List", self.min_length, out.len()) {
            Ok(()) => Ok(out),
            Err(e) => Err(e),
        }
    }
}

/// The name of a collection validator `prefix` whose items' validator is named
/// `item_name` (`any` where it has none).
pub open spec fn spec_collection_name(prefix: Seq<char>, item_name: Option<&str>) -> Seq<char> {
    prefix + "["@ + (match item_name {
        Some(n) => n@,
        None => "any"@,
    }) + "]"@
}

/// The name of a collection validator (see `spec_collection_name`).
pub fn collection_name(prefix: &str, item_name: Option<&str>) -> (r: String)
    ensures
        r@ == spec_collection_name(prefix@, item_name),
{
    let mut name = String::from_str(prefix);
    name.append("[");
    match item_name {
        Some(n) => name.append(n),
        None => name.append("any"),
    }
    name.append("]");
    name
}

/// A `generator` validator: the items are validated as they are drawn.
#[derive(Debug)]
pub struct GeneratorValidator {
    pub has_item_validator: bool,
    pub name: String,
}

impl GeneratorValidator {
    pub fn build(item_name: Option<&str>) -> (r: Self)
        ensures
            r.has_item_validator == (item_name is Some),
            r.name@ == spec_collection_name("generator"@, item_name),
    {
        GeneratorValidator { has_item_validator: item_name.is_some(), name: collection_name("generator", item_name) }
    }
}

/// An `iterable` validator that reads all items at once.
#[derive(Debug)]
pub struct IterableValidator {
    pub has_item_validator: bool,
    pub min_length: Option<usize>,
    pub max_length: Option<usize>,
    pub name: String,
}

/// What an `iterable` schema builds: a generator validator where it is lazy (as it is
/// unless it says otherwise), else an iterable validator.
#[derive(Debug)]
pub enum BuiltIterable {
    Lazy(GeneratorValidator),
    Eager(IterableValidator),
}

impl IterableValidator {
    pub fn build(lazy: Option<bool>, item_name: Option<&str>, min_length: Option<usize>, max_length: Option<usize>) -> (r: BuiltIterable)
        ensures
            lazy != Some(false) ==> (r matches BuiltIterable::Lazy(g) && g.has_item_validator == (item_name is Some)
                && g.name@ == spec_collection_name("generator"@, item_name)),
            lazy == Some(false) ==> (r matches BuiltIterable::Eager(v) && v.has_item_validator == (item_name is Some)
                && v.min_length == min_length && v.max_length == max_length && v.name@ == spec_collection_name(
                "iterable"@,
                item_name,
            )),
    {
        let lazy = match lazy {
            Some(b) => b,
            None => true,
        };
        if lazy {
            return BuiltIterable::Lazy(GeneratorValidator::build(item_name));
        }
        BuiltIterable::Eager(
            IterableValidator {
                has_item_validator: item_name.is_some(),
                min_length,
                max_length,
                name: collection_name("iterable", item_name),
            },
        )
    }

    /// The output, from the items read (within the maximum length) or the failure: it
    /// must hold at least the minimum number of items.
    pub fn validate<T>(&self, items: Result<Vec<T>, ValError>) -> (r: Result<Vec<T>, ValError>)
        ensures
            match items {
                Err(e) => r == Err::<Vec<T>, ValError>(e),
                Ok(v) => match spec_length_error("Iterable"@, self.min_length, None, v.len()) {
                    Some((too_short, bound)) => r matches Err(e) && is_length_error(e, "Iterable"@, too_short, bound, v.len()),
                    None => r == Ok::<Vec<T>, ValError>(v),
                },
            },
    {
        let v = match items {
            Err(e) => {
                return Err(e);
            },
            Ok(v) => v,
        };
        match min_length_check("Iterable", self.min_length, v.len()) {
            Ok(()) => Ok(v),
            Err(e) => Err(e),
        }
    }
}

/// A `sequence` validator, with the bounds on its number of items where it has any.
#[derive(Debug)]
pub struct SequenceValidator {
    pub has_item_validator: bool,
    pub size_range: Option<(Option<usize>, Option<usize>)>,
    pub name: String,
}

impl SequenceValidator {
    pub fn build(item_name: Option<&str>, min_items: Option<usize>, max_items: Option<usize>) -> (r: Self)
        ensures
            r.has_item_validator == (item_name is Some),
            r.size_range == (if min_items is Some || max_items is Some {
                Some((min_items, max_items))
            } else {
                None
            }),
            r.name@ == spec_collection_name("sequence"@, item_name),
    {
        let size_range = if min_items.is_some() || max_items.is_some() {
            Some((min_items, max_items))
        } else {
            None
        };
        SequenceValidator { has_item_validator: item_name.is_some(), size_range, name: collection_name("sequence", item_name) }
    }
}

} // verus!

verus! {

/// Where the gathering of a collection's items stands.
pub enum Gathering<T> {
    /// The items kept so far, and the errors gathered so far.
    Going { kept: Seq<T>, errors: Seq<(ErrorType, Seq<LocItem>)> },
    /// An item's validation failed with something other than line errors.
    Failed(ValError),
    /// The output grew beyond the maximum length, to this length.
    TooLong(nat),
}

/// The gathering of the first `n` items, whose validations gave `outcomes` (in input
/// order): a success is kept where it adds to the output (`fresh`: a set does not grow by
/// an item equal to one it holds); line errors are gathered, each inside the item's
/// index; an omitted item is left out; any other failure ends the gathering. After each
/// item the output must not be longer than `max_length`.
pub open spec fn gather_spec<T>(
    outcomes: Seq<Result<T, ValError>>,
    fresh: Seq<bool>,
    max_length: Option<usize>,
    n: int,
) -> Gathering<T>
    decreases n,
{
    if n <= 0 {
        Gathering::Going { kept: Seq::empty(), errors: Seq::empty() }
    } else {
        match gather_spec(outcomes, fresh, max_length, n - 1) {
            Gathering::Going { kept, errors } => {
                let (kept2, errors2) = match outcomes[n - 1] {
                    Ok(v) => (if fresh[n - 1] {
                        kept.push(v)
                    } else {
                        kept
                    }, errors),
                    Err(ValError::LineErrors(es)) => (kept, errors + errors_with_outer(es@, LocItem::I((n - 1) as i64))),
                    _ => (kept, errors),
                };
                if outcomes[n - 1] is Err && !(outcomes[n - 1] matches Err(ValError::LineErrors(_))) && !(outcomes[n
                    - 1] matches Err(ValError::Omit)) {
                    Gathering::Failed(outcomes[n - 1]->Err_0)
                } else if max_length matches Some(m) && kept2.len() > m {
                    Gathering::TooLong(kept2.len())
                } else {
                    Gathering::Going { kept: kept2, errors: errors2 }
                }
            },
            other => other,
        }
    }
}

/// The outcome of gathering the items of a collection of `field_type` (see `gather_spec`):
/// a failure or a too-long output ends it; otherwise the output falls short where it has
/// fewer than `min_length` items (a `TooShort` error after the gathered ones), and the
/// gathered errors are the result where there are any, else the items kept.
pub open spec fn gathered_result<T>(g: Gathering<T>, field_type: Seq<char>, min_length: usize, max_length: Option<usize>, r: Result<Vec<T>, ValError>) -> bool {
    match g {
        Gathering::Failed(e) => r == Err::<Vec<T>, ValError>(e),
        Gathering::TooLong(len) => r matches Err(e) && is_length_error(e, field_type, false, max_length->Some_0, len as usize),
        Gathering::Going { kept, errors } => if kept.len() < min_length {
            r matches Err(ValError::LineErrors(es)) && es@.len() == errors.len() + 1 && errors_view(es@).subrange(
                0,
                errors.len() as int,
            ) == errors && (es@.last().error_type matches ErrorType::TooShort { field_type: Some(ft), min_length: m, actual_length: a } && ft@
                == field_type && m == min_length && a == kept.len()) && es@.last().loc@.len() == 0
        } else if errors.len() > 0 {
            r matches Err(ValError::LineErrors(es)) && errors_view(es@) == errors
        } else {
            r matches Ok(v) && v@ == kept
        },
    }
}

proof fn lemma_gather_stays<T>(outcomes: Seq<Result<T, ValError>>, fresh: Seq<bool>, max_length: Option<usize>, n: int, m: int)
    requires
        0 <= n <= m,
        !(gather_spec(outcomes, fresh, max_length, n) is Going),
    ensures
        gather_spec(outcomes, fresh, max_length, m) == gather_spec(outcomes, fresh, max_length, n),
    decreases m - n,
{
    if m > n {
        lemma_gather_stays(outcomes, fresh, max_length, n, m - 1);
    }
}

/// Gathers the items of a collection of `field_type` whose validations gave `outcomes`
/// (see `gather_spec` and `gathered_result`).
pub fn gather_items<T>(
    outcomes: Vec<Result<T, ValError>>,
    fresh: Vec<bool>,
    field_type: &str,
    min_length: usize,
    max_length: Option<usize>,
) -> (r: Result<Vec<T>, ValError>)
    requires
        fresh.len() == outcomes.len(),
        outcomes.len() <= i64::MAX,
    ensures
        gathered_result(gather_spec(outcomes@, fresh@, max_length, outcomes.len() as int), field_type@, min_length, max_length, r),
{
    let ghost all = outcomes@;
    let mut rest = outcomes;
    let mut kept: Vec<T> = Vec::new();
    let mut errors: Vec<crate::errors::ValLineError> = Vec::new();
    let mut i: usize = 0;
    proof {
        assert(errors_view(errors@) =~= Seq::<(ErrorType, Seq<LocItem>)>::empty());
        assert(kept@ =~= Seq::<T>::empty());
    }
    while rest.len() > 0
        invariant
            i <= all.len(),
            all == outcomes@,
            all.len() == fresh@.len(),
            all.len() <= i64::MAX,
            rest@ == all.subrange(i as int, all.len() as int),
            gather_spec(all, fresh@, max_length, i as int) == (Gathering::Going { kept: kept@, errors: errors_view(errors@) }),
        decreases rest.len(),
    {
        let o = rest.remove(0);
        let ghost og = o;
        proof {
            assert(o == all[i as int]);
        }
        let ghost before_errors = errors@;
        match o {
            Ok(v) => {
                if fresh[i] {
                    kept.push(v);
                }
            },
            Err(ValError::LineErrors(es)) => {
                let ghost esv = es@;
                let mut located = crate::errors::prefix_errors(es, &LocItem::I(i as i64));
                errors.append(&mut located);
                proof {
                    assert(errors_view(errors@) =~= errors_view(before_errors) + errors_with_outer(esv, LocItem::I(i as i64)));
                }
            },
            Err(ValError::Omit) => {},
            Err(e) => {
                proof {
                    assert(gather_spec(all, fresh@, max_length, i + 1) == Gathering::<T>::Failed(og->Err_0));
                    lemma_gather_stays(all, fresh@, max_length, i + 1, all.len() as int);
                }
                return Err(e);
            },
        }
        if let Some(m) = max_length {
            if kept.len() > m {
                proof {
                    assert(gather_spec(all, fresh@, max_length, i + 1) == Gathering::<T>::TooLong(kept@.len()));
                    lemma_gather_stays(all, fresh@, max_length, i + 1, all.len() as int);
                }
                return Err(
                    root_error(
                        ErrorType::TooLong { field_type: Some(String::from_str(field_type)), max_length: m, actual_length: kept.len() },
                    ),
                );
            }
        }
        i = i + 1;
        proof {
            assert(all.subrange(i as int, all.len() as int) =~= rest@);
        }
    }
    if kept.len() < min_length {
        let ghost before_errors = errors@;
        errors.push(
            crate::errors::ValLineError::new(
                ErrorType::TooShort { field_type: Some(String::from_str(field_type)), min_length, actual_length: kept.len() },
            ),
        );
        proof {
            assert(errors_view(errors@).subrange(0, before_errors.len() as int) =~= errors_view(before_errors));
        }
        return Err(ValError::LineErrors(errors));
    }
    if errors.len() > 0 {
        return Err(ValError::LineErrors(errors));
    }
    Ok(kept)
}

/// Every item of `n` that is kept is a success of its validation, in input order: the
/// output holds only validated items.
pub proof fn kept_items_are_successes<T>(outcomes: Seq<Result<T, ValError>>, fresh: Seq<bool>, max_length: Option<usize>, n: int)
    requires
        0 <= n <= outcomes.len(),
        fresh.len() == outcomes.len(),
    ensures
        gather_spec(outcomes, fresh, max_length, n) matches Gathering::Going { kept, .. } ==> forall|j: int|
            0 <= j < kept.len() ==> exists|i: int| 0 <= i < n && outcomes[i] == Ok::<T, ValError>(#[trigger] kept[j]),
    decreases n,
{
    if n > 0 {
        kept_items_are_successes(outcomes, fresh, max_length, n - 1);
        if let Gathering::Going { kept, .. } = gather_spec(outcomes, fresh, max_length, n) {
            let prev = gather_spec(outcomes, fresh, max_length, n - 1);
            assert forall|j: int| 0 <= j < kept.len() implies exists|i: int| 0 <= i < n && outcomes[i] == Ok::<T, ValError>(
                #[trigger] kept[j],
            ) by {
                let pk = prev->Going_kept;
                if j < pk.len() {
                    assert(kept[j] == pk[j]);
                    let i0 = choose|i: int| 0 <= i < n - 1 && outcomes[i] == Ok::<T, ValError>(#[trigger] pk[j]);
                } else {
                    assert(outcomes[n - 1] == Ok::<T, ValError>(kept[j]));
                }
            }
        }
    }
}

} // verus!

verus! {

/// All `n` items add to the output (nothing is dropped as equal to another).
pub open spec fn all_fresh(n: nat) -> Seq<bool> {
    Seq::new(n, |i: int| true)
}

fn all_fresh_vec(n: usize) -> (r: Vec<bool>)
    ensures
        r@ == all_fresh(n as nat),
{
    let mut v: Vec<bool> = Vec::new();
    let mut i: usize = 0;
    while i < n
        invariant
            i <= n,
            v@ == all_fresh(i as nat),
        decreases n - i,
    {
        v.push(true);
        proof {
            assert(v@ =~= all_fresh((i + 1) as nat));
        }
        i = i + 1;
    }
    v
}

impl TupleVariableValidator {
    /// Validates an input of the kind `input` (`None`: not an iterable): it must be one that
    /// a tuple accepts (in strict mode where the validation or else the schema asks for
    /// it); where it is gone through as a sequence, that conversion must have succeeded
    /// (`sequence_ok`). Then the items, whose validations gave `outcomes` in input order,
    /// are gathered into the output, which must hold from `min_length` to `max_length` items.
    pub fn validate<T>(&self, input: Option<IterableKind>, strict: Option<bool>, sequence_ok: bool, outcomes: Vec<Result<T, ValError>>) -> (r: Result<
        Vec<T>,
        ValError,
    >)
        requires
            outcomes.len() <= i64::MAX,
        ensures
            match input {
                None => r matches Err(e) && is_root_error(e, ErrorType::TupleType),
                Some(k) => match tuple_iteration(k, crate::int_validator::unwrap_or(strict, self.strict)) {
                    None => r matches Err(e) && is_root_error(e, ErrorType::TupleType),
                    Some(it) => if it == Iteration::Converted && !sequence_ok {
                        r matches Err(e) && is_root_error(e, ErrorType::TupleType)
                    } else {
                        gathered_result(
                            gather_spec(outcomes@, all_fresh(outcomes@.len()), self.max_length, outcomes.len() as int),
                            "Tuple"@,
                            self.min_length,
                            self.max_length,
                            r,
                        )
                    },
                },
            },
    {
        let strict = match strict {
            Some(b) => b,
            None => self.strict,
        };
        let it = match tuple_iteration_of(input, strict) {
            Ok(it) => it,
            Err(e) => {
                return Err(e);
            },
        };
        if it == Iteration::Converted && !sequence_ok {
            return Err(root_error(ErrorType::TupleType));
        }
        let fresh = all_fresh_vec(outcomes.len());
        gather_items(outcomes, fresh, "Tuple", self.min_length, self.max_length)
    }
}

/// The name by which a set validator of the kind `k` counts its items in length errors.
pub open spec fn set_field_type(k: SetKind) -> Seq<char> {
    match k {
        SetKind::PlainSet => "Set"@,
        SetKind::FrozenSet => "Frozenset"@,
    }
}

impl IntoSetValidator {
    /// Validates an input of the kind `input` (`None`: not an iterable): it must be one that
    /// the set accepts (see `validate_into_set`); where it is gone through as a sequence,
    /// that conversion must have succeeded (`sequence_ok`). Then the items, whose
    /// validations gave `outcomes` in input order, are gathered into the set (`fresh`: which
    /// successes are not equal to an item already in it, as Python decides), which must
    /// hold from `min_length` to `max_length` items.
    pub fn validate<T>(
        &self,
        input: Option<IterableKind>,
        strict: Option<bool>,
        sequence_ok: bool,
        outcomes: Vec<Result<T, ValError>>,
        fresh: Vec<bool>,
    ) -> (r: Result<Vec<T>, ValError>)
        requires
            outcomes.len() <= i64::MAX,
            fresh.len() == outcomes.len(),
        ensures
            match input {
                None => r matches Err(e) && is_root_error(e, ErrorType::ListType),
                Some(k) => match set_iteration(self.kind, k, crate::int_validator::unwrap_or(strict, self.strict)) {
                    None => r matches Err(e) && is_root_error(e, set_type_error(self.kind)),
                    Some(it) => if it == Iteration::Converted && !sequence_ok {
                        r matches Err(e) && is_root_error(e, set_type_error(self.kind))
                    } else {
                        gathered_result(
                            gather_spec(outcomes@, fresh@, self.max_length, outcomes.len() as int),
                            set_field_type(self.kind),
                            self.min_length,
                            self.max_length,
                            r,
                        )
                    },
                },
            },
    {
        let it = match self.validate_into_set(input, strict) {
            Ok(it) => it,
            Err(e) => {
                return Err(e);
            },
        };
        if it == Iteration::Converted && !sequence_ok {
            return Err(
                root_error(
                    match self.kind {
                        SetKind::PlainSet => ErrorType::SetType,
                        SetKind::FrozenSet => ErrorType::FrozenSetType,
                    },
                ),
            );
        }
        let field_type = match self.kind {
            SetKind::PlainSet => "Set",
            SetKind::FrozenSet => "Frozenset",
        };
        gather_items(outcomes, fresh, field_type, self.min_length, self.max_length)
    }
}

} // verus!

verus! {

/// The gathering of the first `n` entries of a dict, whose key-and-value validations gave
/// `outcomes` (in input order, their errors already located by `entry_result`): a success
/// is added, or, where an equal key is already in the output (`existing`: its position,
/// as Python decides equality), sets that entry's value; line errors are gathered; an
/// omitted entry is left out; any other failure ends the gathering. After each entry the
/// output must not be longer than `max_length`.
pub open spec fn gather_entries_spec<K, V>(
    outcomes: Seq<Result<(K, V), ValError>>,
    existing: Seq<Option<usize>>,
    max_length: Option<usize>,
    n: int,
) -> Gathering<(K, V)>
    decreases n,
{
    if n <= 0 {
        Gathering::Going { kept: Seq::empty(), errors: Seq::empty() }
    } else {
        match gather_entries_spec(outcomes, existing, max_length, n - 1) {
            Gathering::Going { kept, errors } => {
                let (kept2, errors2) = match outcomes[n - 1] {
                    Ok((k, v)) => (if existing[n - 1] matches Some(p) && p < kept.len() {
                        kept.update(existing[n - 1]->Some_0 as int, (kept[existing[n - 1]->Some_0 as int].0, v))
                    } else {
                        kept.push((k, v))
                    }, errors),
                    Err(ValError::LineErrors(es)) => (kept, errors + errors_view(es@)),
                    _ => (kept, errors),
                };
                if outcomes[n - 1] is Err && !(outcomes[n - 1] matches Err(ValError::LineErrors(_))) && !(outcomes[n
                    - 1] matches Err(ValError::Omit)) {
                    Gathering::Failed(outcomes[n - 1]->Err_0)
                } else if max_length matches Some(m) && kept2.len() > m {
                    Gathering::TooLong(kept2.len())
                } else {
                    Gathering::Going { kept: kept2, errors: errors2 }
                }
            },
            other => other,
        }
    }
}

proof fn lemma_gather_entries_stays<K, V>(
    outcomes: Seq<Result<(K, V), ValError>>,
    existing: Seq<Option<usize>>,
    max_length: Option<usize>,
    n: int,
    m: int,
)
    requires
        0 <= n <= m,
        !(gather_entries_spec(outcomes, existing, max_length, n) is Going),
    ensures
        gather_entries_spec(outcomes, existing, max_length, m) == gather_entries_spec(outcomes, existing, max_length, n),
    decreases m - n,
{
    if m > n {
        lemma_gather_entries_stays(outcomes, existing, max_length, n, m - 1);
    }
}

impl DictValidator {
    /// Validates an input of the kind `input` (`None`: not an iterable): it must be one that
    /// the dict accepts (see `iteration`); where it is read as key-value pairs, that
    /// conversion must have succeeded (`mapping_ok`). Then the entries, whose validations
    /// gave `outcomes` (see `entry_result`) in input order, are gathered into the output
    /// (see `gather_entries_spec`), which must hold from `min_length` to `max_length` entries.
    pub fn validate<K, V>(
        &self,
        input: Option<IterableKind>,
        strict: Option<bool>,
        mapping_ok: bool,
        outcomes: Vec<Result<(K, V), ValError>>,
        existing: Vec<Option<usize>>,
    ) -> (r: Result<Vec<(K, V)>, ValError>)
        requires
            existing.len() == outcomes.len(),
        ensures
            match input {
                None => r matches Err(e) && is_root_error(e, ErrorType::DictType),
                Some(k) => match dict_iteration(k, crate::int_validator::unwrap_or(strict, self.strict)) {
                    None => r matches Err(e) && is_root_error(e, ErrorType::DictType),
                    Some(it) => if it == Iteration::Converted && !mapping_ok {
                        r matches Err(e) && is_root_error(e, ErrorType::DictType)
                    } else {
                        gathered_result(
                            gather_entries_spec(outcomes@, existing@, self.max_length, outcomes.len() as int),
                            "Dictionary"@,
                            match self.min_length {
                                Some(m) => m,
                                None => 0,
                            },
                            self.max_length,
                            r,
                        )
                    },
                },
            },
    {
        let it = match self.iteration(input, strict) {
            Ok(it) => it,
            Err(e) => {
                return Err(e);
            },
        };
        if it == Iteration::Converted && !mapping_ok {
            return Err(root_error(ErrorType::DictType));
        }
        let min_length = match self.min_length {
            Some(m) => m,
            None => 0,
        };
        gather_entries(outcomes, existing, "Dictionary", min_length, self.max_length)
    }
}

fn gather_entries<K, V>(
    outcomes: Vec<Result<(K, V), ValError>>,
    existing: Vec<Option<usize>>,
    field_type: &str,
    min_length: usize,
    max_length: Option<usize>,
) -> (r: Result<Vec<(K, V)>, ValError>)
    requires
        existing.len() == outcomes.len(),
    ensures
        gathered_result(
            gather_entries_spec(outcomes@, existing@, max_length, outcomes.len() as int),
            field_type@,
            min_length,
            max_length,
            r,
        ),
{
    let ghost all = outcomes@;
    let mut rest = outcomes;
    let mut kept: Vec<(K, V)> = Vec::new();
    let mut errors: Vec<crate::errors::ValLineError> = Vec::new();
    let mut i: usize = 0;
    proof {
        assert(errors_view(errors@) =~= Seq::<(ErrorType, Seq<LocItem>)>::empty());
        assert(kept@ =~= Seq::<(K, V)>::empty());
    }
    while rest.len() > 0
        invariant
            i <= all.len(),
            all == outcomes@,
            all.len() == existing@.len(),
            rest@ == all.subrange(i as int, all.len() as int),
            gather_entries_spec(all, existing@, max_length, i as int) == (Gathering::Going {
                kept: kept@,
                errors: errors_view(errors@),
            }),
        decreases rest.len(),
    {
        let o = rest.remove(0);
        let ghost og = o;
        proof {
            assert(o == all[i as int]);
        }
        let ghost before_errors = errors@;
        let ghost before_kept = kept@;
        match o {
            Ok((k, v)) => {
                match existing[i] {
                    Some(p) => if p < kept.len() {
                        let (old_k, _) = kept.remove(p);
                        kept.insert(p, (old_k, v));
                        proof {
                            assert(kept@ =~= before_kept.update(p as int, (before_kept[p as int].0, v)));
                        }
                    } else {
                        kept.push((k, v));
                    },
                    None => kept.push((k, v)),
                }
            },
            Err(ValError::LineErrors(es)) => {
                let ghost esv = es@;
                let mut es2 = es;
                errors.append(&mut es2);
                proof {
                    assert(errors_view(errors@) =~= errors_view(before_errors) + errors_view(esv));
                }
            },
            Err(ValError::Omit) => {},
            Err(e) => {
                proof {
                    assert(gather_entries_spec(all, existing@, max_length, i + 1) == Gathering::<(K, V)>::Failed(og->Err_0));
                    lemma_gather_entries_stays(all, existing@, max_length, i + 1, all.len() as int);
                }
                return Err(e);
            },
        }
        if let Some(m) = max_length {
            if kept.len() > m {
                proof {
                    assert(gather_entries_spec(all, existing@, max_length, i + 1) == Gathering::<(K, V)>::TooLong(kept@.len()));
                    lemma_gather_entries_stays(all, existing@, max_length, i + 1, all.len() as int);
                }
                return Err(
                    root_error(
                        ErrorType::TooLong { field_type: Some(String::from_str(field_type)), max_length: m, actual_length: kept.len() },
                    ),
                );
            }
        }
        i = i + 1;
        proof {
            assert(all.subrange(i as int, all.len() as int) =~= rest@);
        }
    }
    if kept.len() < min_length {
        let ghost before_errors = errors@;
        errors.push(
            crate::errors::ValLineError::new(
                ErrorType::TooShort { field_type: Some(String::from_str(field_type)), min_length, actual_length: kept.len() },
            ),
        );
        proof {
            assert(errors_view(errors@).subrange(0, before_errors.len() as int) =~= errors_view(before_errors));
        }
        return Err(ValError::LineErrors(errors));
    }
    if errors.len() > 0 {
        return Err(ValError::LineErrors(errors));
    }
    Ok(kept)
}

} // verus!
