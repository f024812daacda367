//! The `arguments` validator: binds the positional and keyword arguments of a call to
//! the parameters of a function.
use vstd::prelude::*;
use crate::errors::{ErrorInput, ErrorType, LocItem};
use crate::lookup::{lookup_key, lookup_spec, InputKey, LookupKey};
use crate::plan::{Inner, OnLineErrors, Source, Step, Target};
use crate::string_set::{ahash_set_contents, string_set_contains, string_set_insert, string_set_new};

verus! {

/// Where the default of an argument comes from.
#[derive(Debug, PartialEq, Eq, Structural, Clone, Copy)]
pub enum DefaultKind {
    NoDefault,
    Value,
    Factory,
}

/// One parameter of the function.
#[derive(Debug)]
pub struct Argument {
    /// Whether it can be given by position.
    pub positional: bool,
    pub name: String,
    /// How it is found among the keyword arguments, where it can be given by keyword.
    pub kw_lookup_key: Option<LookupKey>,
    pub default: DefaultKind,
}

/// A parameter as the schema describes it.
#[derive(Debug)]
pub struct ArgumentSchema {
    pub name: String,
    /// `positional_only`, `positional_or_keyword` or `keyword_only`.
    pub mode: String,
    pub alias: Option<String>,
    /// Why the parameter's own schema could not be built, where it could not.
    pub schema_error: Option<String>,
    pub has_default: bool,
    pub has_default_factory: bool,
}

/// The error that building the parameter `s` raises, where it raises one.
pub open spec fn argument_error(s: ArgumentSchema) -> Option<Seq<char>> {
    match s.schema_error {
        Some(e) => Some("Argument \""@ + s.name@ + "\":\n  "@ + e@),
        None => if s.has_default && s.has_default_factory {
            Some("'default' and 'default_factory' cannot be used together"@)
        } else {
            None
        },
    }
}

#[derive(Debug)]
pub struct ArgumentsValidator {
    pub arguments: Vec<Argument>,
    pub positional_args_count: usize,
    pub has_var_args: bool,
    pub has_var_kwargs: bool,
}

pub open spec fn mode_is_positional(mode: Seq<char>) -> bool {
    mode == "positional_only"@ || mode == "positional_or_keyword"@
}

pub open spec fn mode_is_keyword(mode: Seq<char>) -> bool {
    mode == "keyword_only"@ || mode == "positional_or_keyword"@
}

/// The argument that the schema `s` describes (where it has not both kinds of default).
pub open spec fn argument_from_schema(s: ArgumentSchema, populate_by_name: bool) -> Argument {
    Argument {
        positional: mode_is_positional(s.mode@),
        name: s.name,
        kw_lookup_key: if mode_is_keyword(s.mode@) {
            Some(
                match s.alias {
                    Some(alias) => LookupKey {
                        key: alias,
                        alt_key: if populate_by_name {
                            Some(s.name)
                        } else {
                            None
                        },
                    },
                    None => LookupKey { key: s.name, alt_key: None },
                },
            )
        } else {
            None
        },
        default: if s.has_default {
            DefaultKind::Value
        } else if s.has_default_factory {
            DefaultKind::Factory
        } else {
            DefaultKind::NoDefault
        },
    }
}

/// The position of the last positional parameter among the first `n`, or 0.
pub open spec fn last_positional(args: Seq<Argument>, n: int) -> int
    decreases n,
{
    if n <= 0 {
        0
    } else if args[n - 1].positional {
        n - 1
    } else {
        last_positional(args, n - 1)
    }
}

pub fn mode_eq(mode: &str, expected: &str) -> (r: bool)
    ensures
        r == (mode@ == expected@),
{
    crate::lookup::str_eq(mode, expected)
}

impl ArgumentsValidator {
    /// Builds the validator from the parameters of the schema; fails at the first
    /// parameter whose schema could not be built or that has both a default and a default
    /// factory.
    pub fn build(
        schemas: Vec<ArgumentSchema>,
        populate_by_name: bool,
        has_var_args: bool,
        has_var_kwargs: bool,
    ) -> (r: Result<ArgumentsValidator, String>)
        ensures
            (forall|i: int| 0 <= i < schemas.len() ==> argument_error(#[trigger] schemas@[i]) is None) <==> r is Ok,
            r matches Ok(v) ==> {
                &&& v.arguments@.len() == schemas.len()
                &&& forall|i: int|
                    0 <= i < schemas.len() ==> #[trigger] v.arguments@[i] == argument_from_schema(
                        schemas@[i],
                        populate_by_name,
                    )
                &&& v.positional_args_count == last_positional(v.arguments@, v.arguments@.len() as int)
                &&& v.has_var_args == has_var_args
                &&& v.has_var_kwargs == has_var_kwargs
            },
            r matches Err(msg) ==> exists|i: int|
                0 <= i < schemas.len() && argument_error(#[trigger] schemas@[i]) == Some(msg@) && forall|j: int|
                    0 <= j < i ==> argument_error(#[trigger] schemas@[j]) is None,
    {
        let ghost all = schemas@;
        let mut rest = schemas;
        let mut arguments: Vec<Argument> = Vec::new();
        let mut positional_args_count: usize = 0;
        let ghost mut i: int = 0;
        while rest.len() > 0
            invariant
                0 <= i <= all.len(),
                all == schemas@,
                rest@ == all.subrange(i, all.len() as int),
                arguments@.len() == i,
                forall|j: int| 0 <= j < i ==> #[trigger] arguments@[j] == argument_from_schema(all[j], populate_by_name),
                forall|j: int| 0 <= j < i ==> argument_error(#[trigger] all[j]) is None,
                positional_args_count == last_positional(arguments@, i),
            decreases rest.len(),
        {
            let s = rest.remove(0);
            proof {
                assert(s == all[i]);
            }
            if let Some(e) = &s.schema_error {
                let mut msg = String::from_str("Argument \"");
                msg.append(s.name.as_str());
                msg.append("\":\n  ");
                msg.append(e.as_str());
                proof {
                    assert(argument_error(schemas@[i]) == Some(msg@));
                }
                return Err(msg);
            }
            if s.has_default && s.has_default_factory {
                let msg = String::from_str("'default' and 'default_factory' cannot be used together");
                proof {
                    assert(argument_error(schemas@[i]) == Some(msg@));
                }
                return Err(msg);
            }
            let positional = mode_eq(s.mode.as_str(), "positional_only") || mode_eq(
                s.mode.as_str(),
                "positional_or_keyword",
            );
            let keyword = mode_eq(s.mode.as_str(), "keyword_only") || mode_eq(
                s.mode.as_str(),
                "positional_or_keyword",
            );
            let kw_lookup_key = if keyword {
                match s.alias {
                    Some(alias) => Some(
                        LookupKey {
                            key: alias,
                            alt_key: if populate_by_name {
                                Some(s.name.clone())
                            } else {
                                None
                            },
                        },
                    ),
                    None => Some(LookupKey { key: s.name.clone(), alt_key: None }),
                }
            } else {
                None
            };
            let default = if s.has_default {
                DefaultKind::Value
            } else if s.has_default_factory {
                DefaultKind::Factory
            } else {
                DefaultKind::NoDefault
            };
            let ghost old_args = arguments@;
            if positional {
                positional_args_count = arguments.len();
            }
            arguments.push(Argument { positional, name: s.name, kw_lookup_key, default });
            proof {
                assert(arguments@[i] == argument_from_schema(all[i], populate_by_name));
                assert(arguments@.drop_last() =~= old_args);
                lemma_last_positional_prefix(arguments@, old_args, i);
                i = i + 1;
                assert(all.subrange(i, all.len() as int) =~= rest@);
            }
        }
        Ok(ArgumentsValidator { arguments, positional_args_count, has_var_args, has_var_kwargs })
    }
}

proof fn lemma_last_positional_prefix(a: Seq<Argument>, b: Seq<Argument>, n: int)
    requires
        0 <= n <= b.len(),
        b.len() <= a.len(),
        forall|j: int| 0 <= j < b.len() ==> a[j] == b[j],
    ensures
        last_positional(a, n) == last_positional(b, n),
    decreases n,
{
    if n > 0 {
        lemma_last_positional_prefix(a, b, n - 1);
    }
}

/// Where the value for one parameter comes from, or the error about it.
pub open spec fn argument_step(
    a: Argument,
    index: int,
    args_len: Option<usize>,
    kwargs: Option<Seq<InputKey>>,
) -> Step {
    let pos = match args_len {
        Some(n) => a.positional && index < n,
        None => false,
    };
    let kw = match (kwargs, a.kw_lookup_key) {
        (Some(keys), Some(lk)) => lookup_spec(lk, keys),
        _ => None,
    };
    if pos && kw is Some {
        Step::Fail { error_type: ErrorType::MultipleArgumentValues, loc: Some(LocItem::I(index as i64)), input: ErrorInput::Whole }
    } else if pos {
        Step::Fill {
            source: Source::Positional(index as usize),
            validator: Inner::Item(index as usize),
            target: Target::Args,
            loc: Some(LocItem::I(index as i64)),
            on_line_errors: OnLineErrors::Collect,
            skip_omit: false,
            mark_set: false,
        }
    } else if let Some((_, k)) = kw {
        Step::Fill {
            source: Source::Keyword(k as usize),
            validator: Inner::Item(index as usize),
            target: Target::Dict(a.name),
            loc: Some(LocItem::S(a.name)),
            on_line_errors: OnLineErrors::Collect,
            skip_omit: false,
            mark_set: false,
        }
    } else if a.default != DefaultKind::NoDefault {
        Step::Fill {
            source: Source::Default(index as usize),
            validator: Inner::Nothing,
            target: if a.kw_lookup_key is Some {
                Target::Dict(a.name)
            } else {
                Target::Args
            },
            loc: None,
            on_line_errors: OnLineErrors::Stop,
            skip_omit: false,
            mark_set: false,
        }
    } else if a.kw_lookup_key is Some {
        Step::Fail { error_type: ErrorType::MissingArgument, loc: Some(LocItem::S(a.name)), input: ErrorInput::Whole }
    } else {
        Step::Fail { error_type: ErrorType::MissingArgument, loc: Some(LocItem::I(index as i64)), input: ErrorInput::Whole }
    }
}

/// The keys that the first `n` parameters took from the keyword arguments.
pub open spec fn used_keys(args: Seq<Argument>, kwargs: Option<Seq<InputKey>>, n: int) -> Set<Seq<char>>
    decreases n,
{
    if n <= 0 {
        Set::empty()
    } else {
        let before = used_keys(args, kwargs, n - 1);
        match (kwargs, args[n - 1].kw_lookup_key) {
            (Some(keys), Some(lk)) => match lookup_spec(lk, keys) {
                Some((k, _)) => before.insert(k),
                None => before,
            },
            _ => before,
        }
    }
}

/// The steps for the keyword arguments that no parameter took: each is validated as
/// extra keyword argument, or is an error.
pub open spec fn extra_kwarg_steps(keys: Seq<InputKey>, used: Set<Seq<char>>, has_var_kwargs: bool) -> Seq<Step>
    decreases keys.len(),
{
    if keys.len() == 0 {
        Seq::empty()
    } else {
        let before = extra_kwarg_steps(keys.drop_last(), used, has_var_kwargs);
        let k = keys.len() - 1;
        match keys.last() {
            InputKey::NotStr(l) => before.push(
                Step::Fail { error_type: ErrorType::InvalidKey, loc: Some(l), input: ErrorInput::Key(k as usize) },
            ),
            InputKey::Str(s) => if used.contains(s@) {
                before
            } else if has_var_kwargs {
                before.push(
                    Step::Fill {
                        source: Source::Keyword(k as usize),
                        validator: Inner::VarKwargs,
                        target: Target::Dict(s),
                        loc: Some(LocItem::S(s)),
                        on_line_errors: OnLineErrors::Collect,
                        skip_omit: false,
                        mark_set: false,
                    },
                )
            } else {
                before.push(
                    Step::Fail {
                        error_type: ErrorType::UnexpectedKeywordArgument,
                        loc: Some(LocItem::S(s)),
                        input: ErrorInput::Keyword(k as usize),
                    },
                )
            },
        }
    }
}

/// The steps for the positional arguments from `used` on.
pub open spec fn extra_arg_steps(args_len: Option<usize>, used: int, has_var_args: bool) -> Seq<Step> {
    match args_len {
        Some(n) => if n > used {
            if has_var_args {
                Seq::new(
                    (n - used) as nat,
                    |j: int|
                        Step::Fill {
                            source: Source::Positional((used + j) as usize),
                            validator: Inner::VarArgs,
                            target: Target::Args,
                            loc: Some(LocItem::I((used + j) as i64)),
                            on_line_errors: OnLineErrors::Collect,
                            skip_omit: false,
                            mark_set: false,
                        },
                )
            } else {
                seq![Step::Fail { error_type: ErrorType::UnexpectedPositionalArguments { unexpected_count: (n - used) as usize }, loc: None, input: ErrorInput::Whole }]
            }
        } else {
            Seq::empty()
        },
        None => Seq::empty(),
    }
}

impl ArgumentsValidator {
    pub open spec fn wf(self) -> bool {
        &&& self.arguments.len() <= i64::MAX
    }

    /// The plan of `validate_py_args` for `args_len` positional arguments (none given:
    /// `None`) and the keyword arguments with keys `kwargs`.
    pub open spec fn spec_plan(self, args_len: Option<usize>, kwargs: Option<Seq<InputKey>>) -> Seq<Step> {
        let args = self.arguments@;
        let bound = Seq::new(args.len(), |i: int| argument_step(args[i], i, args_len, kwargs));
        let used_args = if args_len is Some {
            last_positional(args, args.len() as int)
        } else {
            0
        };
        let kw_steps = match kwargs {
            Some(keys) => extra_kwarg_steps(keys, used_keys(args, kwargs, args.len() as int), self.has_var_kwargs),
            None => Seq::empty(),
        };
        bound + extra_arg_steps(args_len, used_args, self.has_var_args) + kw_steps
    }
}

impl ArgumentsValidator {
    /// Decides, for a call with `args_len` positional arguments (`None`: no positional
    /// arguments were given) and keyword arguments with keys `kwargs`, where the value of
    /// each parameter comes from, what happens to the arguments that no parameter took,
    /// and which errors arise from the binding alone.
    pub fn plan(&self, args_len: Option<usize>, kwargs: Option<&Vec<InputKey>>) -> (r: Vec<Step>)
        requires
            self.wf(),
        ensures
            r@ == self.spec_plan(args_len, keys_view(kwargs)),
    {
        let ghost args = self.arguments@;
        let ghost kws = keys_view(kwargs);
        let mut steps: Vec<Step> = Vec::new();
        let mut used = string_set_new();
        let mut used_args: usize = 0;
        let n = self.arguments.len();
        let mut i: usize = 0;
        while i < n
            invariant
                i <= n,
                n == args.len(),
                args == self.arguments@,
                kws == keys_view(kwargs),
                self.wf(),
                steps@ =~= Seq::new(i as nat, |j: int| argument_step(args[j], j, args_len, kws)),
                ahash_set_contents(used) == used_keys(args, kws, i as int),
                args_len is Some ==> used_args == last_positional(args, i as int),
            decreases n - i,
        {
            let a = &self.arguments[i];
            let pos = match args_len {
                Some(len) => a.positional && i < len,
                None => false,
            };
            if args_len.is_some() && a.positional {
                used_args = i;
            }
            let kw = match (kwargs, &a.kw_lookup_key) {
                (Some(keys), Some(lk)) => lookup_key(lk, keys),
                _ => None,
            };
            let ghost old_used = ahash_set_contents(used);
            match &kw {
                Some((k, _)) => string_set_insert(&mut used, k.clone()),
                None => {},
            }
            let step = if pos && kw.is_some() {
                Step::Fail { error_type: ErrorType::MultipleArgumentValues, loc: Some(LocItem::I(i as i64)), input: ErrorInput::Whole }
            } else if pos {
                Step::Fill {
                    source: Source::Positional(i),
                    validator: Inner::Item(i),
                    target: Target::Args,
                    loc: Some(LocItem::I(i as i64)),
                    on_line_errors: OnLineErrors::Collect,
                    skip_omit: false,
                    mark_set: false,
                }
            } else if let Some((_, k)) = kw {
                Step::Fill {
                    source: Source::Keyword(k),
                    validator: Inner::Item(i),
                    target: Target::Dict(a.name.clone()),
                    loc: Some(LocItem::S(a.name.clone())),
                    on_line_errors: OnLineErrors::Collect,
                    skip_omit: false,
                    mark_set: false,
                }
            } else if a.default != DefaultKind::NoDefault {
                Step::Fill {
                    source: Source::Default(i),
                    validator: Inner::Nothing,
                    target: if a.kw_lookup_key.is_some() {
                        Target::Dict(a.name.clone())
                    } else {
                        Target::Args
                    },
                    loc: None,
                    on_line_errors: OnLineErrors::Stop,
                    skip_omit: false,
                    mark_set: false,
                }
            } else if a.kw_lookup_key.is_some() {
                Step::Fail { error_type: ErrorType::MissingArgument, loc: Some(LocItem::S(a.name.clone())), input: ErrorInput::Whole }
            } else {
                Step::Fail { error_type: ErrorType::MissingArgument, loc: Some(LocItem::I(i as i64)), input: ErrorInput::Whole }
            };
            proof {
                assert(step == argument_step(args[i as int], i as int, args_len, kws));
            }
            steps.push(step);
            i = i + 1;
        }
        let ghost bound = steps@;
        let used_from: usize = if args_len.is_some() {
            used_args
        } else {
            0
        };
        match args_len {
            Some(len) => {
                if len > used_from {
                    if self.has_var_args {
                        let mut j: usize = used_from;
                        while j < len
                            invariant
                                used_from <= j <= len,
                                steps@ =~= bound + Seq::new(
                                    (j - used_from) as nat,
                                    |m: int|
                                        Step::Fill {
                                            source: Source::Positional((used_from + m) as usize),
                                            validator: Inner::VarArgs,
                                            target: Target::Args,
                                            loc: Some(LocItem::I((used_from + m) as i64)),
                                            on_line_errors: OnLineErrors::Collect,
                                            skip_omit: false,
                                            mark_set: false,
                                        },
                                ),
                            decreases len - j,
                        {
                            steps.push(
                                Step::Fill {
                                    source: Source::Positional(j),
                                    validator: Inner::VarArgs,
                                    target: Target::Args,
                                    loc: Some(LocItem::I(j as i64)),
                                    on_line_errors: OnLineErrors::Collect,
                                    skip_omit: false,
                                    mark_set: false,
                                },
                            );
                            j = j + 1;
                        }
                    } else {
                        steps.push(
                            Step::Fail {
                                error_type: ErrorType::UnexpectedPositionalArguments { unexpected_count: len - used_from },
                                loc: None,
                                input: ErrorInput::Whole,
                            },
                        );
                    }
                }
            },
            None => {},
        }
        proof {
            assert(steps@ =~= bound + extra_arg_steps(args_len, used_from as int, self.has_var_args));
        }
        let ghost with_args = steps@;
        match kwargs {
            Some(keys) => {
                let mut k: usize = 0;
                while k < keys.len()
                    invariant
                        k <= keys.len(),
                        ahash_set_contents(used) == used_keys(args, kws, args.len() as int),
                        kws == Some(keys@),
                        steps@ =~= with_args + extra_kwarg_steps(
                            keys@.subrange(0, k as int),
                            used_keys(args, kws, args.len() as int),
                            self.has_var_kwargs,
                        ),
                    decreases keys.len() - k,
                {
                    proof {
                        assert(keys@.subrange(0, k + 1).drop_last() =~= keys@.subrange(0, k as int));
                    }
                    match &keys[k] {
                        InputKey::NotStr(l) => {
                            steps.push(Step::Fail { error_type: ErrorType::InvalidKey, loc: Some(l.duplicate()), input: ErrorInput::Key(k) });
                        },
                        InputKey::Str(s) => {
                            if string_set_contains(&used, s.as_str()) {
                            } else if self.has_var_kwargs {
                                steps.push(
                                    Step::Fill {
                                        source: Source::Keyword(k),
                                        validator: Inner::VarKwargs,
                                        target: Target::Dict(s.clone()),
                                        loc: Some(LocItem::S(s.clone())),
                                        on_line_errors: OnLineErrors::Collect,
                                        skip_omit: false,
                                        mark_set: false,
                                    },
                                );
                            } else {
                                steps.push(
                                    Step::Fail {
                                        error_type: ErrorType::UnexpectedKeywordArgument,
                                        loc: Some(LocItem::S(s.clone())),
                                        input: ErrorInput::Keyword(k),
                                    },
                                );
                            }
                        },
                    }
                    k = k + 1;
                }
                proof {
                    assert(keys@.subrange(0, keys@.len() as int) =~= keys@);
                }
            },
            None => {},
        }
        steps
    }
}

pub open spec fn keys_view(kwargs: Option<&Vec<InputKey>>) -> Option<Seq<InputKey>> {
    match kwargs {
        Some(v) => Some(v@),
        None => None,
    }
}

} // verus!

verus! {

impl ArgumentsValidator {
    /// Validates a call: the values that `plan` asks for are given by `outcomes`, in the
    /// order of the plan. Gathers the positional and keyword output and the errors; the
    /// output is returned even where errors were gathered, and only a failure that is not
    /// a line error ends the validation.
    pub fn validate_py_args<T>(
        &self,
        args_len: Option<usize>,
        kwargs: Option<&Vec<InputKey>>,
        outcomes: Vec<Result<T, crate::errors::ValError>>,
    ) -> (r: Result<crate::plan::Gathered<T>, crate::errors::ValError>)
        requires
            self.wf(),
            outcomes.len() == self.spec_plan(args_len, keys_view(kwargs)).len(),
        ensures
            crate::plan::result_view(r) == crate::plan::run_spec(
                self.spec_plan(args_len, keys_view(kwargs)),
                outcomes@,
                outcomes.len() as int,
            ),
    {
        let steps = self.plan(args_len, kwargs);
        crate::plan::run_plan(steps, outcomes)
    }
}

} // verus!
