//! The `dataclass-args` validator: binds the positional and keyword arguments of a
//! dataclass's `__init__` to its fields.
use vstd::prelude::*;
use crate::arguments::keys_view;
use crate::errors::{ErrorInput, ErrorType, LocItem, ValError};
use crate::lookup::{lookup_key, lookup_spec, InputKey, LookupKey};
use crate::plan::{finished, run_and_finish, run_spec, Gathered, Inner, OnLineErrors, Source, Step, Target};
use crate::string_set::{ahash_set_contents, string_set_contains, string_set_insert, string_set_new};

verus! {

/// One field of the dataclass.
#[derive(Debug)]
pub struct DataclassField {
    /// Whether it can be given by position.
    pub positional: bool,
    pub name: String,
    /// Whether it is an init-only field (`InitVar`).
    pub init_only: bool,
    pub lookup_key: LookupKey,
    /// Whether its validator supplies a default.
    pub has_default: bool,
}

/// A field as the schema describes it.
#[derive(Debug)]
pub struct DataclassFieldSchema {
    pub name: String,
    pub alias: Option<String>,
    /// Why the field's own schema could not be built, where it could not.
    pub schema_error: Option<String>,
    /// Whether its validator leaves the value out on error.
    pub omit_on_error: bool,
    pub has_default: bool,
    pub positional: Option<bool>,
    pub init_only: Option<bool>,
}

#[derive(Debug)]
pub struct DataclassArgsValidator {
    pub fields: Vec<DataclassField>,
    /// The number of leading fields that can be given by position.
    pub positional_count: usize,
    /// Whether the values of init-only fields are gathered (else they are dropped).
    pub collect_init_only: bool,
}

/// The error that building the field `s` raises, where it raises one.
pub open spec fn field_error(s: DataclassFieldSchema) -> Option<Seq<char>> {
    match s.schema_error {
        Some(e) => Some("Field '"@ + s.name@ + "':\n  "@ + e@),
        None => if s.omit_on_error {
            Some("Field `"@ + s.name@ + "`: omit_on_error cannot be used with arguments"@)
        } else {
            None
        },
    }
}

pub open spec fn field_from_schema(s: DataclassFieldSchema, populate_by_name: bool) -> DataclassField {
    DataclassField {
        positional: s.positional == Some(true),
        name: s.name,
        init_only: s.init_only == Some(true),
        lookup_key: match s.alias {
            Some(alias) => LookupKey {
                key: alias,
                alt_key: if populate_by_name {
                    Some(s.name)
                } else {
                    None
                },
            },
            None => LookupKey { key: s.name, alt_key: None },
        },
        has_default: s.has_default,
    }
}

/// One more than the position of the last positional field among the first `n`, or 0.
pub open spec fn positional_count_of(fields: Seq<DataclassField>, n: int) -> int
    decreases n,
{
    if n <= 0 {
        0
    } else if fields[n - 1].positional {
        n
    } else {
        positional_count_of(fields, n - 1)
    }
}

proof fn lemma_positional_count_prefix(a: Seq<DataclassField>, b: Seq<DataclassField>, n: int)
    requires
        0 <= n <= b.len(),
        b.len() <= a.len(),
        forall|j: int| 0 <= j < b.len() ==> a[j] == b[j],
    ensures
        positional_count_of(a, n) == positional_count_of(b, n),
        0 <= positional_count_of(a, n) <= n,
    decreases n,
{
    if n > 0 {
        lemma_positional_count_prefix(a, b, n - 1);
    }
}

impl DataclassArgsValidator {
    /// Builds the validator from the fields of the schema; fails at the first field whose
    /// schema could not be built or whose validator omits the value on error.
    pub fn build(schemas: Vec<DataclassFieldSchema>, populate_by_name: bool, collect_init_only: bool) -> (r: Result<
        DataclassArgsValidator,
        String,
    >)
        ensures
            r matches Ok(v) ==> {
                &&& forall|i: int| 0 <= i < schemas.len() ==> field_error(#[trigger] schemas@[i]) is None
                &&& v.fields@.len() == schemas.len()
                &&& forall|i: int|
                    0 <= i < schemas.len() ==> #[trigger] v.fields@[i] == field_from_schema(
                        schemas@[i],
                        populate_by_name,
                    )
                &&& v.positional_count == positional_count_of(v.fields@, v.fields@.len() as int)
                &&& v.collect_init_only == collect_init_only
            },
            r matches Err(m) ==> exists|i: int|
                0 <= i < schemas.len() && field_error(#[trigger] schemas@[i]) == Some(m@) && forall|j: int|
                    0 <= j < i ==> field_error(#[trigger] schemas@[j]) is None,
    {
        let ghost all = schemas@;
        let mut rest = schemas;
        let mut fields: Vec<DataclassField> = Vec::new();
        let mut positional_count: usize = 0;
        let ghost mut i: int = 0;
        while rest.len() > 0
            invariant
                0 <= i <= all.len(),
                all == schemas@,
                rest@ == all.subrange(i, all.len() as int),
                fields@.len() == i,
                forall|j: int| 0 <= j < i ==> #[trigger] fields@[j] == field_from_schema(all[j], populate_by_name),
                forall|j: int| 0 <= j < i ==> field_error(#[trigger] all[j]) is None,
                positional_count == positional_count_of(fields@, i),
            decreases rest.len(),
        {
            let s = rest.remove(0);
            proof {
                assert(s == all[i]);
            }
            match s.schema_error {
                Some(e) => {
                    let mut m = String::from_str("Field '");
                    m.append(s.name.as_str());
                    m.append("':\n  ");
                    m.append(e.as_str());
                    return Err(m);
                },
                None => {},
            }
            if s.omit_on_error {
                let mut m = String::from_str("Field `");
                m.append(s.name.as_str());
                m.append("`: omit_on_error cannot be used with arguments");
                return Err(m);
            }
            let positional = match s.positional {
                Some(p) => p,
                None => false,
            };
            let init_only = match s.init_only {
                Some(p) => p,
                None => false,
            };
            let lookup = match s.alias {
                Some(alias) => LookupKey {
                    key: alias,
                    alt_key: if populate_by_name {
                        Some(s.name.clone())
                    } else {
                        None
                    },
                },
                None => LookupKey { key: s.name.clone(), alt_key: None },
            };
            let ghost old_fields = fields@;
            fields.push(DataclassField { positional, name: s.name, init_only, lookup_key: lookup, has_default: s.has_default });
            if positional {
                positional_count = fields.len();
            }
            proof {
                assert(fields@[i] == field_from_schema(all[i], populate_by_name));
                lemma_positional_count_prefix(fields@, old_fields, i);
                i = i + 1;
                assert(all.subrange(i, all.len() as int) =~= rest@);
            }
        }
        Ok(DataclassArgsValidator { fields, positional_count, collect_init_only })
    }

    /// Where the validated value of the field `f` goes.
    pub open spec fn field_target(self, f: DataclassField) -> Target {
        if f.init_only {
            if self.collect_init_only {
                Target::InitOnly(f.name)
            } else {
                Target::Drop
            }
        } else {
            Target::Dict(f.name)
        }
    }

    /// Where the value for the field `f` (the `index`-th) comes from, or the error about it.
    pub open spec fn field_step(
        self,
        f: DataclassField,
        index: int,
        args_len: Option<usize>,
        kwargs: Option<Seq<InputKey>>,
    ) -> Step {
        let pos = match args_len {
            Some(n) => f.positional && index < n,
            None => false,
        };
        let kw = match kwargs {
            Some(keys) => lookup_spec(f.lookup_key, keys),
            None => None,
        };
        if pos && kw is Some {
            Step::Fail {
                error_type: ErrorType::MultipleArgumentValues,
                loc: Some(LocItem::S(f.name)),
                input: ErrorInput::Keyword(kw->Some_0.1 as usize),
            }
        } else if pos {
            Step::Fill {
                source: Source::Positional(index as usize),
                validator: Inner::Item(index as usize),
                target: self.field_target(f),
                loc: Some(LocItem::I(index as i64)),
                on_line_errors: OnLineErrors::Collect,
                skip_omit: false,
                mark_set: false,
            }
        } else if let Some((_, k)) = kw {
            Step::Fill {
                source: Source::Keyword(k as usize),
                validator: Inner::Item(index as usize),
                target: self.field_target(f),
                loc: Some(LocItem::S(f.name)),
                on_line_errors: OnLineErrors::Collect,
                skip_omit: false,
                mark_set: false,
            }
        } else if f.has_default {
            Step::Fill {
                source: Source::Default(index as usize),
                validator: Inner::Nothing,
                target: self.field_target(f),
                loc: None,
                on_line_errors: OnLineErrors::Stop,
                skip_omit: false,
                mark_set: false,
            }
        } else {
            Step::Fail { error_type: ErrorType::MissingKeywordArgument, loc: Some(LocItem::S(f.name)), input: ErrorInput::Whole }
        }
    }

    /// The keys that the first `n` fields took from the keyword arguments.
    pub open spec fn used_keys(self, n: int, kwargs: Option<Seq<InputKey>>) -> Set<Seq<char>>
        decreases n,
    {
        if n <= 0 {
            Set::empty()
        } else {
            let before = self.used_keys(n - 1, kwargs);
            match kwargs {
                Some(keys) => match lookup_spec(self.fields@[n - 1].lookup_key, keys) {
                    Some((k, _)) => before.insert(k),
                    None => before,
                },
                None => before,
            }
        }
    }

    /// The errors for the positional arguments beyond the positional fields.
    pub open spec fn extra_arg_steps(self, args_len: Option<usize>) -> Seq<Step> {
        let pc = self.positional_count as int;
        match args_len {
            Some(n) => if n > pc {
                Seq::new(
                    (n - pc) as nat,
                    |j: int|
                        Step::Fail {
                            error_type: ErrorType::UnexpectedPositionalArgument,
                            loc: Some(LocItem::I((pc + j) as i64)),
                            input: ErrorInput::Positional((pc + j) as usize),
                        },
                )
            } else {
                Seq::empty()
            },
            None => Seq::empty(),
        }
    }

    /// The errors for the keyword arguments `keys` that no field took.
    pub open spec fn extra_kwarg_steps(self, keys: Seq<InputKey>, used: Set<Seq<char>>) -> Seq<Step>
        decreases keys.len(),
    {
        if keys.len() == 0 {
            Seq::empty()
        } else {
            let before = self.extra_kwarg_steps(keys.drop_last(), used);
            let k = keys.len() - 1;
            match keys.last() {
                InputKey::NotStr(l) => before.push(
                    Step::Fail { error_type: ErrorType::InvalidKey, loc: Some(l), input: ErrorInput::Key(k as usize) },
                ),
                InputKey::Str(s) => if used.contains(s@) {
                    before
                } else {
                    before.push(
                        Step::Fail {
                            error_type: ErrorType::UnexpectedKeywordArgument,
                            loc: Some(LocItem::S(s)),
                            input: ErrorInput::Keyword(k as usize),
                        },
                    )
                },
            }
        }
    }

    /// The plan for `args_len` positional arguments (`None`: none were given) and the
    /// keyword arguments with keys `kwargs`.
    pub open spec fn spec_plan(self, args_len: Option<usize>, kwargs: Option<Seq<InputKey>>) -> Seq<Step> {
        let fields = self.fields@;
        let bound = Seq::new(fields.len(), |i: int| self.field_step(fields[i], i, args_len, kwargs));
        let kw_steps = match kwargs {
            Some(keys) => self.extra_kwarg_steps(keys, self.used_keys(fields.len() as int, kwargs)),
            None => Seq::empty(),
        };
        bound + self.extra_arg_steps(args_len) + kw_steps
    }

    pub open spec fn wf(self) -> bool {
        &&& self.fields.len() <= i64::MAX
        &&& self.positional_count <= self.fields.len()
    }

    /// Decides, for a call with `args_len` positional arguments (`None`: none were given)
    /// and keyword arguments with keys `kwargs`, where the value of each field comes from,
    /// and which errors arise from the binding alone.
    pub fn plan(&self, args_len: Option<usize>, kwargs: Option<&Vec<InputKey>>) -> (r: Vec<Step>)
        requires
            self.wf(),
        ensures
            r@ == self.spec_plan(args_len, keys_view(kwargs)),
    {
        let ghost fields = self.fields@;
        let ghost kws = keys_view(kwargs);
        let mut steps: Vec<Step> = Vec::new();
        let mut used = string_set_new();
        let n = self.fields.len();
        let mut i: usize = 0;
        while i < n
            invariant
                i <= n,
                n == fields.len(),
                fields == self.fields@,
                kws == keys_view(kwargs),
                self.wf(),
                steps@ =~= Seq::new(i as nat, |j: int| self.field_step(fields[j], j, args_len, kws)),
                ahash_set_contents(used) == self.used_keys(i as int, kws),
            decreases n - i,
        {
            let f = &self.fields[i];
            let pos = match args_len {
                Some(len) => f.positional && i < len,
                None => false,
            };
            let kw = match kwargs {
                Some(keys) => lookup_key(&f.lookup_key, keys),
                None => None,
            };
            match &kw {
                Some((k, _)) => string_set_insert(&mut used, k.clone()),
                None => {},
            }
            let target = if f.init_only {
                if self.collect_init_only {
                    Target::InitOnly(f.name.clone())
                } else {
                    Target::Drop
                }
            } else {
                Target::Dict(f.name.clone())
            };
            let step = if pos && kw.is_some() {
                let kw_pos = match &kw {
                    Some((_, kp)) => *kp,
                    None => 0,
                };
                Step::Fail {
                    error_type: ErrorType::MultipleArgumentValues,
                    loc: Some(LocItem::S(f.name.clone())),
                    input: ErrorInput::Keyword(kw_pos),
                }
            } else if pos {
                Step::Fill {
                    source: Source::Positional(i),
                    validator: Inner::Item(i),
                    target,
                    loc: Some(LocItem::I(i as i64)),
                    on_line_errors: OnLineErrors::Collect,
                    skip_omit: false,
                    mark_set: false,
                }
            } else if let Some((_, k)) = kw {
                Step::Fill {
                    source: Source::Keyword(k),
                    validator: Inner::Item(i),
                    target,
                    loc: Some(LocItem::S(f.name.clone())),
                    on_line_errors: OnLineErrors::Collect,
                    skip_omit: false,
                    mark_set: false,
                }
            } else if f.has_default {
                Step::Fill {
                    source: Source::Default(i),
                    validator: Inner::Nothing,
                    target,
                    loc: None,
                    on_line_errors: OnLineErrors::Stop,
                    skip_omit: false,
                    mark_set: false,
                }
            } else {
                Step::Fail { error_type: ErrorType::MissingKeywordArgument, loc: Some(LocItem::S(f.name.clone())), input: ErrorInput::Whole }
            };
            proof {
                assert(step == self.field_step(fields[i as int], i as int, args_len, kws));
            }
            steps.push(step);
            i = i + 1;
        }
        let ghost bound = steps@;
        let pc = self.positional_count;
        match args_len {
            Some(len) => {
                if len > pc {
                    let mut j: usize = pc;
                    while j < len
                        invariant
                            pc <= j <= len,
                            pc == self.positional_count,
                            args_len == Some(len),
                            steps@ =~= bound + self.extra_arg_steps(args_len).subrange(0, (j - pc) as int),
                        decreases len - j,
                    {
                        let step = Step::Fail {
                            error_type: ErrorType::UnexpectedPositionalArgument,
                            loc: Some(LocItem::I(j as i64)),
                            input: ErrorInput::Positional(j),
                        };
                        proof {
                            assert(step == self.extra_arg_steps(args_len)[(j - pc) as int]);
                            assert(self.extra_arg_steps(args_len).subrange(0, (j + 1 - pc) as int) =~= self.extra_arg_steps(
                                args_len,
                            ).subrange(0, (j - pc) as int).push(step));
                        }
                        steps.push(step);
                        j = j + 1;
                    }
                    proof {
                        assert(self.extra_arg_steps(args_len).subrange(0, (len - pc) as int) =~= self.extra_arg_steps(args_len));
                    }
                }
            },
            None => {},
        }
        proof {
            assert(steps@ =~= bound + self.extra_arg_steps(args_len));
        }
        let ghost with_args = steps@;
        let ghost used_all = self.used_keys(n as int, kws);
        match kwargs {
            Some(keys) => {
                let mut k: usize = 0;
                while k < keys.len()
                    invariant
                        k <= keys.len(),
                        ahash_set_contents(used) == used_all,
                        kws == Some(keys@),
                        steps@ =~= with_args + self.extra_kwarg_steps(keys@.subrange(0, k as int), used_all),
                    decreases keys.len() - k,
                {
                    proof {
                        assert(keys@.subrange(0, k + 1).drop_last() =~= keys@.subrange(0, k as int));
                    }
                    match &keys[k] {
                        InputKey::NotStr(l) => {
                            steps.push(Step::Fail { error_type: ErrorType::InvalidKey, loc: Some(l.duplicate()), input: ErrorInput::Key(k) });
                        },
                        InputKey::Str(s) => {
                            if !string_set_contains(&used, s.as_str()) {
                                steps.push(
                                    Step::Fail {
                                        error_type: ErrorType::UnexpectedKeywordArgument,
                                        loc: Some(LocItem::S(s.clone())),
                                        input: ErrorInput::Keyword(k),
                                    },
                                );
                            }
                        },
                    }
                    k = k + 1;
                }
                proof {
                    assert(keys@.subrange(0, keys@.len() as int) =~= keys@);
                }
            },
            None => {},
        }
        steps
    }

    /// Validates a call: the values that `plan` asks for are given by `outcomes`, in the
    /// order of the plan. The fields go to the output mapping, init-only fields to their
    /// own mapping where they are gathered; the validation fails with the gathered errors
    /// where there are any.
    pub fn validate<T>(&self, args_len: Option<usize>, kwargs: Option<&Vec<InputKey>>, outcomes: Vec<Result<T, ValError>>) -> (r: Result<Gathered<T>, ValError>)
        requires
            self.wf(),
            outcomes.len() == self.spec_plan(args_len, keys_view(kwargs)).len(),
        ensures
            finished(run_spec(self.spec_plan(args_len, keys_view(kwargs)), outcomes@, outcomes.len() as int), r),
    {
        let steps = self.plan(args_len, kwargs);
        run_and_finish(steps, outcomes)
    }
}

} // verus!

verus! {

proof fn lemma_unexpected_kwarg_step(v: DataclassArgsValidator, keys: Seq<InputKey>, used: Set<Seq<char>>, p: int) -> (j: int)
    requires
        0 <= p < keys.len(),
        keys[p] is Str,
        !used.contains(keys[p]->Str_0@),
    ensures
        0 <= j < v.extra_kwarg_steps(keys, used).len(),
        v.extra_kwarg_steps(keys, used)[j] == (Step::Fail {
            error_type: ErrorType::UnexpectedKeywordArgument,
            loc: Some(LocItem::S(keys[p]->Str_0)),
            input: ErrorInput::Keyword(p as usize),
        }),
    decreases keys.len(),
{
    if p == keys.len() - 1 {
        v.extra_kwarg_steps(keys.drop_last(), used).len() as int
    } else {
        lemma_unexpected_kwarg_step(v, keys.drop_last(), used, p)
    }
}

/// A keyword argument that no field takes makes the call fail, whatever the fields'
/// validators give.
pub proof fn unexpected_keyword_fails<T>(
    v: DataclassArgsValidator,
    args_len: Option<usize>,
    keys: Seq<InputKey>,
    p: int,
    outcomes: Seq<Result<T, ValError>>,
    out: Result<Gathered<T>, ValError>,
)
    requires
        0 <= p < keys.len(),
        keys[p] is Str,
        !v.used_keys(v.fields@.len() as int, Some(keys)).contains(keys[p]->Str_0@),
        outcomes.len() == v.spec_plan(args_len, Some(keys)).len(),
        finished(run_spec(v.spec_plan(args_len, Some(keys)), outcomes, outcomes.len() as int), out),
    ensures
        out is Err,
{
    let used = v.used_keys(v.fields@.len() as int, Some(keys));
    let j = lemma_unexpected_kwarg_step(v, keys, used, p);
    let plan = v.spec_plan(args_len, Some(keys));
    let k = v.fields@.len() + v.extra_arg_steps(args_len).len() + j;
    assert(plan[k] == v.extra_kwarg_steps(keys, used)[j]);
    crate::plan::reported_error_fails(plan, outcomes, k, out);
}

/// More positional arguments than there are positional fields make the call fail,
/// whatever the fields' validators give.
pub proof fn too_many_positional_fails<T>(
    v: DataclassArgsValidator,
    args_len: usize,
    kwargs: Option<Seq<InputKey>>,
    outcomes: Seq<Result<T, ValError>>,
    out: Result<Gathered<T>, ValError>,
)
    requires
        args_len > v.positional_count,
        outcomes.len() == v.spec_plan(Some(args_len), kwargs).len(),
        finished(run_spec(v.spec_plan(Some(args_len), kwargs), outcomes, outcomes.len() as int), out),
    ensures
        out is Err,
{
    let plan = v.spec_plan(Some(args_len), kwargs);
    let k = v.fields@.len() as int;
    assert(plan[k] == v.extra_arg_steps(Some(args_len))[0]);
    crate::plan::reported_error_fails(plan, outcomes, k, out);
}

} // verus!
