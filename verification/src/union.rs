//! The `union` validator (the value is validated by each choice in turn, first in strict
//! mode, then as the validation asks) and the `tagged-union` validator (the choice is
//! picked by the value of a tag in the input).
use vstd::prelude::*;
use crate::constraints::root_error;
use crate::errors::{errors_view, errors_with_outer, prefix_errors, ErrorType, LocItem, ValError, ValLineError};
use crate::lookup::{lookup_key, lookup_spec, str_eq, InputKey, LookupKey};

verus! {

#[derive(Debug)]
pub struct UnionValidator {
    /// The name of each choice's validator.
    pub choice_names: Vec<String>,
    pub strict: bool,
    pub name: String,
}

/// The parts `parts` joined by `sep`.
pub open spec fn join_seqs(parts: Seq<Seq<char>>, sep: Seq<char>) -> Seq<char>
    decreases parts.len(),
{
    if parts.len() == 0 {
        Seq::empty()
    } else if parts.len() == 1 {
        parts[0]
    } else {
        join_seqs(parts.drop_last(), sep) + sep + parts.last()
    }
}

/// The characters of each string of `v`.
pub open spec fn strings_view(v: Seq<String>) -> Seq<Seq<char>> {
    Seq::new(v.len(), |i: int| v[i]@)
}

/// `names` joined by `sep`.
pub open spec fn joined(names: Seq<String>, sep: Seq<char>) -> Seq<char> {
    join_seqs(strings_view(names), sep)
}

/// Joins `names` with `sep` between them.
pub fn join_names(names: &Vec<String>, sep: &str) -> (r: String)
    ensures
        r@ == joined(names@, sep@),
{
    let mut out = String::new();
    let mut i: usize = 0;
    while i < names.len()
        invariant
            i <= names.len(),
            out@ == join_seqs(strings_view(names@.subrange(0, i as int)), sep@),
        decreases names.len() - i,
    {
        proof {
            assert(strings_view(names@.subrange(0, i + 1)).drop_last() =~= strings_view(names@.subrange(0, i as int)));
        }
        if i > 0 {
            out.append(sep);
        }
        out.append(names[i].as_str());
        i = i + 1;
    }
    proof {
        assert(names@.subrange(0, names@.len() as int) =~= names@);
    }
    out
}

/// The errors of all choices, each inside the choice's name.
pub open spec fn union_errors(names: Seq<String>, outcomes: Seq<Seq<ValLineError>>, n: int) -> Seq<(ErrorType, Seq<LocItem>)>
    decreases n,
{
    if n <= 0 {
        Seq::empty()
    } else {
        union_errors(names, outcomes, n - 1) + errors_with_outer(outcomes[n - 1], LocItem::S(names[n - 1]))
    }
}

/// The position of the first outcome among the first `n` that `decides` holds of.
pub open spec fn first_deciding<T>(outcomes: Seq<Result<T, ValError>>, n: int, ok_only: bool) -> Option<int>
    decreases n,
{
    if n <= 0 {
        None
    } else {
        match first_deciding(outcomes, n - 1, ok_only) {
            Some(i) => Some(i),
            None => if decides(outcomes[n - 1], ok_only) {
                Some(n - 1)
            } else {
                None
            },
        }
    }
}

/// Whether `o` ends the pass: a success (where `ok_only`), or anything but line errors.
pub open spec fn decides<T>(o: Result<T, ValError>, ok_only: bool) -> bool {
    if ok_only {
        o is Ok
    } else {
        !(o matches Err(ValError::LineErrors(_)))
    }
}

/// The line errors of each outcome (none for an outcome that has none).
pub open spec fn line_errors_of<T>(outcomes: Seq<Result<T, ValError>>) -> Seq<Seq<ValLineError>> {
    Seq::new(outcomes.len(), |i: int| match outcomes[i] {
        Err(ValError::LineErrors(es)) => es@,
        _ => Seq::empty(),
    })
}

impl UnionValidator {
    /// Builds the validator from the names of its choices' validators.
    pub fn build(choice_names: Vec<String>, strict: bool) -> (r: UnionValidator)
        ensures
            r.choice_names@ == choice_names@,
            r.strict == strict,
            r.name@ == "union["@ + joined(choice_names@, ","@) + "]"@,
    {
        let descr = join_names(&choice_names, ",");
        let mut name = String::from_str("union[");
        name.append(descr.as_str());
        name.append("]");
        UnionValidator { choice_names, strict, name }
    }

    /// Whether the validation is in strict mode: as it asks, or as the schema says.
    pub open spec fn spec_is_strict(self, strict: Option<bool>) -> bool {
        match strict {
            Some(b) => b,
            None => self.strict,
        }
    }

    /// The outcome of the union, from the outcomes of validating the value by each choice
    /// in strict mode (`strict_outcomes`) and as the validation asks (`lax_outcomes`, only
    /// looked at outside strict mode). In strict mode the first outcome that is not line
    /// errors is the result; otherwise the first strict success, else the first lax outcome
    /// that is not line errors. Where none decides, the result is the line errors of every
    /// choice of the last pass, each inside the choice's name.
    pub open spec fn spec_outcome<T>(
        self,
        strict: Option<bool>,
        strict_outcomes: Seq<Result<T, ValError>>,
        lax_outcomes: Seq<Result<T, ValError>>,
        r: Result<T, ValError>,
    ) -> bool {
        let n = self.choice_names@.len() as int;
        if self.spec_is_strict(strict) {
            match first_deciding(strict_outcomes, n, false) {
                Some(i) => r == strict_outcomes[i],
                None => r matches Err(ValError::LineErrors(es)) && errors_view(es@) == union_errors(
                    self.choice_names@,
                    line_errors_of(strict_outcomes),
                    n,
                ),
            }
        } else {
            match first_deciding(strict_outcomes, n, true) {
                Some(i) => r == strict_outcomes[i],
                None => match first_deciding(lax_outcomes, n, false) {
                    Some(i) => r == lax_outcomes[i],
                    None => r matches Err(ValError::LineErrors(es)) && errors_view(es@) == union_errors(
                        self.choice_names@,
                        line_errors_of(lax_outcomes),
                        n,
                    ),
                },
            }
        }
    }

    /// Picks the outcome of the union (see `spec_outcome`). The outcomes after the one
    /// that decides are not looked at, so the caller need not compute them (any value
    /// will do).
    pub fn validate<T>(
        &self,
        strict: Option<bool>,
        strict_outcomes: Vec<Result<T, ValError>>,
        lax_outcomes: Vec<Result<T, ValError>>,
    ) -> (r: Result<T, ValError>)
        requires
            strict_outcomes.len() == self.choice_names.len(),
            lax_outcomes.len() == self.choice_names.len(),
        ensures
            self.spec_outcome(strict, strict_outcomes@, lax_outcomes@, r),
    {
        let is_strict = match strict {
            Some(b) => b,
            None => self.strict,
        };
        if is_strict {
            self.pass(strict_outcomes)
        } else {
            match self.first_ok(strict_outcomes) {
                Some(v) => Ok(v),
                None => self.pass(lax_outcomes),
            }
        }
    }

    fn first_ok<T>(&self, outcomes: Vec<Result<T, ValError>>) -> (r: Option<T>)
        requires
            outcomes.len() == self.choice_names.len(),
        ensures
            match first_deciding(outcomes@, outcomes.len() as int, true) {
                Some(i) => r matches Some(v) && outcomes@[i] == Ok::<T, ValError>(v),
                None => r is None,
            },
    {
        let ghost all = outcomes@;
        let mut rest = outcomes;
        let ghost mut i: int = 0;
        while rest.len() > 0
            invariant
                0 <= i <= all.len(),
                all == outcomes@,
                rest@ == all.subrange(i, all.len() as int),
                first_deciding(all, i, true) is None,
            decreases rest.len(),
        {
            let o = rest.remove(0);
            proof {
                assert(o == all[i]);
            }
            match o {
                Ok(v) => {
                    proof {
                        assert(first_deciding(all, i + 1, true) == Some(i));
                        lemma_first_deciding_stays(all, i + 1, all.len() as int, true);
                    }
                    return Some(v);
                },
                Err(_) => {},
            }
            proof {
                i = i + 1;
                assert(all.subrange(i, all.len() as int) =~= rest@);
            }
        }
        None
    }

    fn pass<T>(&self, outcomes: Vec<Result<T, ValError>>) -> (r: Result<T, ValError>)
        requires
            outcomes.len() == self.choice_names.len(),
        ensures
            match first_deciding(outcomes@, outcomes.len() as int, false) {
                Some(i) => r == outcomes@[i],
                None => r matches Err(ValError::LineErrors(es)) && errors_view(es@) == union_errors(
                    self.choice_names@,
                    line_errors_of(outcomes@),
                    outcomes.len() as int,
                ),
            },
    {
        let ghost all = outcomes@;
        let mut rest = outcomes;
        let mut errors: Vec<ValLineError> = Vec::new();
        let mut i: usize = 0;
        while rest.len() > 0
            invariant
                0 <= i <= all.len(),
                all == outcomes@,
                all.len() == self.choice_names.len(),
                rest@ == all.subrange(i as int, all.len() as int),
                first_deciding(all, i as int, false) is None,
                errors_view(errors@) == union_errors(self.choice_names@, line_errors_of(all), i as int),
            decreases rest.len(),
        {
            let o = rest.remove(0);
            proof {
                assert(o == all[i as int]);
            }
            match o {
                Err(ValError::LineErrors(es)) => {
                    let ghost esv = es@;
                    let mut pe = prefix_errors(es, &LocItem::S(self.choice_names[i].clone()));
                    let ghost old_errors = errors@;
                    errors.append(&mut pe);
                    proof {
                        assert(line_errors_of(all)[i as int] == esv);
                        assert(errors_view(errors@) =~= errors_view(old_errors) + errors_with_outer(
                            esv,
                            LocItem::S(self.choice_names@[i as int]),
                        ));
                    }
                },
                other => {
                    proof {
                        assert(first_deciding(all, i + 1, false) == Some(i as int));
                        lemma_first_deciding_stays(all, i + 1, all.len() as int, false);
                    }
                    return other;
                },
            }
            i = i + 1;
            proof {
                assert(all.subrange(i as int, all.len() as int) =~= rest@);
            }
        }
        Err(ValError::LineErrors(errors))
    }
}

proof fn lemma_first_deciding_stays<T>(outcomes: Seq<Result<T, ValError>>, n: int, m: int, ok_only: bool)
    requires
        0 <= n <= m,
        first_deciding(outcomes, n, ok_only) is Some,
    ensures
        first_deciding(outcomes, m, ok_only) == first_deciding(outcomes, n, ok_only),
    decreases m - n,
{
    if m > n {
        lemma_first_deciding_stays(outcomes, n, m - 1, ok_only);
    }
}

} // verus!

verus! {

/// One choice of a tagged union: the key of the tag, and the tag's value that picks it.
#[derive(Debug)]
pub struct TaggedUnionChoice {
    pub lookup_key: LookupKey,
    pub tag: String,
}

/// A choice as the schema describes it.
#[derive(Debug)]
pub struct TaggedUnionChoiceSchema {
    pub tag_key: Option<String>,
    pub tag: String,
    /// The name of the choice's validator.
    pub validator_name: String,
}

#[derive(Debug)]
pub struct TaggedUnionValidator {
    pub choices: Vec<TaggedUnionChoice>,
    pub from_attributes: bool,
    pub strict: bool,
    pub name: String,
    pub tags_repr: String,
}

/// The choice that the schema `s` describes (where it has a tag key).
pub open spec fn choice_from_schema(s: TaggedUnionChoiceSchema) -> TaggedUnionChoice {
    TaggedUnionChoice { lookup_key: LookupKey { key: s.tag_key->Some_0, alt_key: None }, tag: s.tag }
}

/// How a choice shows in the error where no tag matched: `('key')=tag`.
pub open spec fn choice_repr(c: TaggedUnionChoice) -> Seq<char> {
    "('"@ + c.lookup_key.key@ + "')="@ + c.tag@
}

/// The representations of the first `n` choices, joined by `, `.
pub open spec fn tags_repr_of(choices: Seq<TaggedUnionChoice>, n: int) -> Seq<char>
    decreases n,
{
    if n <= 0 {
        Seq::empty()
    } else if n == 1 {
        choice_repr(choices[0])
    } else {
        tags_repr_of(choices, n - 1) + ", "@ + choice_repr(choices[n - 1])
    }
}

/// The names of the first `n` choices' validators, joined by `,`.
pub open spec fn names_joined(schemas: Seq<TaggedUnionChoiceSchema>, n: int) -> Seq<char>
    decreases n,
{
    if n <= 0 {
        Seq::empty()
    } else if n == 1 {
        schemas[0].validator_name@
    } else {
        names_joined(schemas, n - 1) + ","@ + schemas[n - 1].validator_name@
    }
}

/// The message where a choice has no tag key.
pub open spec fn missing_tag_key_message() -> Seq<char> {
    "'tag_key' or 'tag_keys' must be set on tagged union choices"@
}

impl TaggedUnionValidator {
    /// Builds the validator; fails where a choice has no tag key.
    pub fn build(schemas: Vec<TaggedUnionChoiceSchema>, from_attributes: bool, strict: bool) -> (r: Result<TaggedUnionValidator, String>)
        ensures
            (exists|i: int| 0 <= i < schemas.len() && (#[trigger] schemas@[i]).tag_key is None) ==> (r matches Err(m) && m@
                == missing_tag_key_message()),
            (forall|i: int| 0 <= i < schemas.len() ==> (#[trigger] schemas@[i]).tag_key is Some) ==> (r matches Ok(v) && {
                &&& v.choices@.len() == schemas.len()
                &&& forall|i: int| 0 <= i < schemas.len() ==> #[trigger] v.choices@[i] == choice_from_schema(schemas@[i])
                &&& v.tags_repr@ == tags_repr_of(v.choices@, v.choices@.len() as int)
                &&& v.name@ == "tagged-union["@ + names_joined(schemas@, schemas@.len() as int) + "]"@
                &&& v.from_attributes == from_attributes
                &&& v.strict == strict
            }),
    {
        let mut choices: Vec<TaggedUnionChoice> = Vec::new();
        let mut tags_repr = String::new();
        let mut descr = String::new();
        let n = schemas.len();
        let mut i: usize = 0;
        while i < n
            invariant
                i <= n,
                n == schemas@.len(),
                choices@.len() == i,
                forall|j: int| 0 <= j < i ==> (#[trigger] schemas@[j]).tag_key is Some,
                forall|j: int| 0 <= j < i ==> #[trigger] choices@[j] == choice_from_schema(schemas@[j]),
                tags_repr@ == tags_repr_of(choices@, i as int),
                descr@ == names_joined(schemas@, i as int),
            decreases n - i,
        {
            let s = &schemas[i];
            let key = match &s.tag_key {
                Some(k) => k.clone(),
                None => {
                    return Err(String::from_str("'tag_key' or 'tag_keys' must be set on tagged union choices"));
                },
            };
            let c = TaggedUnionChoice { lookup_key: LookupKey { key, alt_key: None }, tag: s.tag.clone() };
            if i > 0 {
                tags_repr.append(", ");
                descr.append(",");
            }
            tags_repr.append("('");
            tags_repr.append(c.lookup_key.key.as_str());
            tags_repr.append("')=");
            tags_repr.append(c.tag.as_str());
            descr.append(s.validator_name.as_str());
            let ghost old_choices = choices@;
            choices.push(c);
            proof {
                lemma_tags_repr_prefix(choices@, old_choices, i as int);
                assert(tags_repr@ =~= tags_repr_of(choices@, i + 1));
            }
            i = i + 1;
        }
        let mut name = String::from_str("tagged-union[");
        name.append(descr.as_str());
        name.append("]");
        Ok(TaggedUnionValidator { choices, from_attributes, strict, name, tags_repr })
    }

    /// The choice that an input with keys `keys` picks: the first whose tag key is there
    /// with a string value (`tag_values`, by position) equal to its tag.
    pub open spec fn spec_choice(self, keys: Seq<InputKey>, tag_values: Seq<Option<String>>, n: int) -> Option<int>
        decreases n,
    {
        if n <= 0 {
            None
        } else {
            match self.spec_choice(keys, tag_values, n - 1) {
                Some(i) => Some(i),
                None => {
                    let c = self.choices@[n - 1];
                    match lookup_spec(c.lookup_key, keys) {
                        Some((_, pos)) => if tag_values[pos] matches Some(v) && v@ == c.tag@ {
                            Some(n - 1)
                        } else {
                            None
                        },
                        None => None,
                    }
                }
            }
        }
    }

    /// Picks the choice for an input with keys `keys`, whose values are strings as
    /// `tag_values` says: the choice's index, or the error that no tag matched.
    pub fn pick_choice(&self, keys: &Vec<InputKey>, tag_values: &Vec<Option<String>>) -> (r: Result<usize, ValError>)
        requires
            tag_values.len() == keys.len(),
        ensures
            self.spec_choice(keys@, tag_values@, self.choices@.len() as int) matches Some(i) ==> r == Ok::<usize, ValError>(i as usize),
            self.spec_choice(keys@, tag_values@, self.choices@.len() as int) is None ==> (r matches Err(ValError::LineErrors(es))
                && errors_view(es@) == seq![(ErrorType::UnionTagNotFound { tags: self.tags_repr }, Seq::<LocItem>::empty())]),
    {
        let n = self.choices.len();
        let mut i: usize = 0;
        while i < n
            invariant
                i <= n,
                n == self.choices@.len(),
                tag_values.len() == keys.len(),
                self.spec_choice(keys@, tag_values@, i as int) is None,
            decreases n - i,
        {
            let c = &self.choices[i];
            match lookup_key(&c.lookup_key, keys) {
                Some((_, pos)) => {
                    match &tag_values[pos] {
                        Some(v) => {
                            if str_eq(v.as_str(), c.tag.as_str()) {
                                proof {
                                    lemma_spec_choice_stays(*self, keys@, tag_values@, i + 1, n as int);
                                }
                                return Ok(i);
                            }
                        },
                        None => {},
                    }
                },
                None => {},
            }
            i = i + 1;
        }
        Err(root_error(ErrorType::UnionTagNotFound { tags: self.tags_repr.clone() }))
    }
}

proof fn lemma_spec_choice_stays(v: TaggedUnionValidator, keys: Seq<InputKey>, tag_values: Seq<Option<String>>, n: int, m: int)
    requires
        0 <= n <= m,
        v.spec_choice(keys, tag_values, n) is Some,
    ensures
        v.spec_choice(keys, tag_values, m) == v.spec_choice(keys, tag_values, n),
    decreases m - n,
{
    if m > n {
        lemma_spec_choice_stays(v, keys, tag_values, n, m - 1);
    }
}

proof fn lemma_tags_repr_prefix(a: Seq<TaggedUnionChoice>, b: Seq<TaggedUnionChoice>, n: int)
    requires
        0 <= n <= b.len(),
        b.len() <= a.len(),
        forall|j: int| 0 <= j < b.len() ==> a[j] == b[j],
    ensures
        tags_repr_of(a, n) == tags_repr_of(b, n),
    decreases n,
{
    if n > 0 {
        lemma_tags_repr_prefix(a, b, n - 1);
    }
}

} // verus!

verus! {

proof fn lemma_first_deciding_facts<T>(outcomes: Seq<Result<T, ValError>>, n: int, ok_only: bool)
    ensures
        first_deciding(outcomes, n, ok_only) matches Some(i) ==> 0 <= i < n && decides(outcomes[i], ok_only) && forall|
            j: int,
        | 0 <= j < i ==> !decides(#[trigger] outcomes[j], ok_only),
        first_deciding(outcomes, n, ok_only) is None ==> forall|j: int| 0 <= j < n ==> !decides(#[trigger] outcomes[j], ok_only),
    decreases n,
{
    if n > 0 {
        lemma_first_deciding_facts(outcomes, n - 1, ok_only);
    }
}

/// Where a choice validates the value in strict mode, and no choice before it fails
/// with anything but line errors, the union succeeds with the value of the first choice
/// that validates strictly, in strict mode and outside it alike.
pub proof fn strict_success_wins<T>(
    v: UnionValidator,
    strict: Option<bool>,
    strict_outcomes: Seq<Result<T, ValError>>,
    lax_outcomes: Seq<Result<T, ValError>>,
    i: int,
    r: Result<T, ValError>,
)
    requires
        strict_outcomes.len() == v.choice_names@.len(),
        0 <= i < strict_outcomes.len(),
        strict_outcomes[i] is Ok,
        forall|j: int| 0 <= j < i ==> (#[trigger] strict_outcomes[j]) matches Err(ValError::LineErrors(_)),
        v.spec_outcome(strict, strict_outcomes, lax_outcomes, r),
    ensures
        r == strict_outcomes[i],
{
    let n = strict_outcomes.len() as int;
    lemma_first_deciding_facts(strict_outcomes, n, true);
    lemma_first_deciding_facts(strict_outcomes, n, false);
    assert(decides(strict_outcomes[i], true));
    assert(decides(strict_outcomes[i], false));
    if let Some(k) = first_deciding(strict_outcomes, n, false) {
        if k < i {
            assert(strict_outcomes[k] matches Err(ValError::LineErrors(_)));
        }
    }
    if let Some(k) = first_deciding(strict_outcomes, n, true) {
        if k < i {
            assert(strict_outcomes[k] matches Err(ValError::LineErrors(_)));
        }
    }
}

/// In strict mode the union's outcome does not depend on how the choices validate the
/// value outside strict mode.
pub proof fn strict_mode_ignores_lax_outcomes<T>(
    v: UnionValidator,
    strict: Option<bool>,
    strict_outcomes: Seq<Result<T, ValError>>,
    lax_a: Seq<Result<T, ValError>>,
    lax_b: Seq<Result<T, ValError>>,
    r: Result<T, ValError>,
)
    requires
        v.spec_is_strict(strict),
    ensures
        v.spec_outcome(strict, strict_outcomes, lax_a, r) == v.spec_outcome(strict, strict_outcomes, lax_b, r),
{
}

} // verus!
