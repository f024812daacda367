//! The `arguments-v3` validator: binds arguments to parameters, where the arguments
//! come either as positional and keyword arguments or as a mapping from parameter names.
use vstd::prelude::*;
use crate::errors::{ErrorInput, ErrorType, LocItem, ValError};
use crate::extra::ExtraBehavior;
use crate::lookup::{lookup_key, lookup_spec, str_eq, InputKey, LookupKey};
use crate::plan::{finished, run_spec, Gathered, Inner, OnLineErrors, Source, Step, Target};
use crate::string_set::{ahash_set_contents, string_set_contains, string_set_insert, string_set_new};

verus! {

#[derive(Debug, PartialEq, Eq, Structural, Clone, Copy)]
pub enum ParameterMode {
    PositionalOnly,
    PositionalOrKeyword,
    VarArgs,
    KeywordOnly,
    VarKwargsUniform,
    VarKwargsUnpackedTypedDict,
}

pub open spec fn spec_parameter_mode(s: Seq<char>) -> Option<ParameterMode> {
    if s == "positional_only"@ {
        Some(ParameterMode::PositionalOnly)
    } else if s == "positional_or_keyword"@ {
        Some(ParameterMode::PositionalOrKeyword)
    } else if s == "var_args"@ {
        Some(ParameterMode::VarArgs)
    } else if s == "keyword_only"@ {
        Some(ParameterMode::KeywordOnly)
    } else if s == "var_kwargs_uniform"@ {
        Some(ParameterMode::VarKwargsUniform)
    } else if s == "var_kwargs_unpacked_typed_dict"@ {
        Some(ParameterMode::VarKwargsUnpackedTypedDict)
    } else {
        None
    }
}

impl ParameterMode {
    /// Reads a parameter's mode from its schema.
    pub fn from_str(s: &str) -> (r: Result<ParameterMode, String>)
        ensures
            spec_parameter_mode(s@) matches Some(m) ==> r == Ok::<ParameterMode, String>(m),
            spec_parameter_mode(s@) is None ==> (r matches Err(msg) && msg@ == "Invalid var_kwargs mode: `"@ + s@
                + "`"@),
    {
        if str_eq(s, "positional_only") {
            Ok(ParameterMode::PositionalOnly)
        } else if str_eq(s, "positional_or_keyword") {
            Ok(ParameterMode::PositionalOrKeyword)
        } else if str_eq(s, "var_args") {
            Ok(ParameterMode::VarArgs)
        } else if str_eq(s, "keyword_only") {
            Ok(ParameterMode::KeywordOnly)
        } else if str_eq(s, "var_kwargs_uniform") {
            Ok(ParameterMode::VarKwargsUniform)
        } else if str_eq(s, "var_kwargs_unpacked_typed_dict") {
            Ok(ParameterMode::VarKwargsUnpackedTypedDict)
        } else {
            let mut m = String::from_str("Invalid var_kwargs mode: `");
            m.append(s);
            m.append("`");
            Err(m)
        }
    }

    pub open spec fn spec_is_variadic(self) -> bool {
        self == ParameterMode::VarArgs || self == ParameterMode::VarKwargsUniform || self
            == ParameterMode::VarKwargsUnpackedTypedDict
    }

    pub open spec fn takes_position(self) -> bool {
        self == ParameterMode::PositionalOnly || self == ParameterMode::PositionalOrKeyword
    }

    pub open spec fn takes_keyword(self) -> bool {
        self == ParameterMode::PositionalOrKeyword || self == ParameterMode::KeywordOnly
    }
}

#[derive(Debug)]
pub struct Parameter {
    pub name: String,
    pub mode: ParameterMode,
    pub lookup_key: LookupKey,
    /// Whether the parameter's validator supplies a default.
    pub has_default: bool,
}

impl Parameter {
    /// Whether the parameter takes any number of arguments (`*args`, `**kwargs`).
    pub fn is_variadic(&self) -> (r: bool)
        ensures
            r == self.mode.spec_is_variadic(),
    {
        match self.mode {
            ParameterMode::VarArgs | ParameterMode::VarKwargsUniform | ParameterMode::VarKwargsUnpackedTypedDict => true,
            _ => false,
        }
    }
}

/// A parameter as the schema describes it.
#[derive(Debug)]
pub struct ParameterSchema {
    pub name: String,
    pub mode: Option<String>,
    pub alias: Option<String>,
    /// Why the parameter's own schema could not be built, where it could not.
    pub schema_error: Option<String>,
    /// Whether its validator supplies a default.
    pub has_default: bool,
    /// Whether its validator leaves the value out on error.
    pub omit_on_error: bool,
}

#[derive(Debug)]
pub struct ArgumentsV3Validator {
    pub parameters: Vec<Parameter>,
    pub positional_params_count: usize,
    pub loc_by_alias: bool,
    pub extra: ExtraBehavior,
}

pub open spec fn schema_mode(s: ParameterSchema) -> Option<ParameterMode> {
    match s.mode {
        Some(m) => spec_parameter_mode(m@),
        None => Some(ParameterMode::PositionalOrKeyword),
    }
}

/// Whether one of the first `n` parameters has a default.
pub open spec fn had_default(schemas: Seq<ParameterSchema>, n: int) -> bool {
    exists|j: int| 0 <= j < n && #[trigger] schemas[j].has_default
}

/// Whether one of the first `n` parameters is keyword-only.
pub open spec fn had_keyword_only(schemas: Seq<ParameterSchema>, n: int) -> bool {
    exists|j: int| 0 <= j < n && #[trigger] schema_mode(schemas[j]) == Some(ParameterMode::KeywordOnly)
}

/// The error that the parameter at `i` raises, given that those before raised none.
pub open spec fn parameter_error(schemas: Seq<ParameterSchema>, i: int) -> Option<Seq<char>> {
    let s = schemas[i];
    match s.mode {
        Some(m) if spec_parameter_mode(m@) is None => Some("Invalid var_kwargs mode: `"@ + m@ + "`"@),
        _ => if s.schema_error is Some {
            Some("Parameter '"@ + s.name@ + "':\n  "@ + s.schema_error->Some_0@)
        } else if s.omit_on_error {
            Some("Parameter '"@ + s.name@ + "': omit_on_error cannot be used with arguments"@)
        } else if had_default(schemas, i) && !s.has_default && !had_keyword_only(schemas, i + 1) {
            Some("Non-default argument '"@ + s.name@ + "' follows default argument"@)
        } else {
            None
        },
    }
}

pub open spec fn parameter_from_schema(s: ParameterSchema, populate_by_name: bool) -> Parameter {
    Parameter {
        name: s.name,
        mode: schema_mode(s)->Some_0,
        lookup_key: match s.alias {
            Some(alias) => LookupKey {
                key: alias,
                alt_key: if populate_by_name {
                    Some(s.name)
                } else {
                    None
                },
            },
            None => LookupKey { key: s.name, alt_key: None },
        },
        has_default: s.has_default,
    }
}

/// The number of parameters among the first `n` that take a position.
pub open spec fn count_positional(params: Seq<Parameter>, n: int) -> int
    decreases n,
{
    if n <= 0 {
        0
    } else {
        count_positional(params, n - 1) + if params[n - 1].mode.takes_position() {
            1int
        } else {
            0
        }
    }
}

/// The number of parameters among the first `n` that are not variadic.
pub open spec fn count_non_variadic(params: Seq<Parameter>, n: int) -> int
    decreases n,
{
    if n <= 0 {
        0
    } else {
        count_non_variadic(params, n - 1) + if params[n - 1].mode.spec_is_variadic() {
            0int
        } else {
            1
        }
    }
}

/// The first parameter (among the first `n`) that takes extra keyword arguments
/// (`var_kwargs`) or extra positional arguments (otherwise).
pub open spec fn first_with_mode(params: Seq<Parameter>, n: int, var_kwargs: bool) -> Option<int>
    decreases n,
{
    if n <= 0 {
        None
    } else {
        match first_with_mode(params, n - 1, var_kwargs) {
            Some(i) => Some(i),
            None => if (if var_kwargs {
                is_var_kwargs(params[n - 1].mode)
            } else {
                is_var_args(params[n - 1].mode)
            }) {
                Some(n - 1)
            } else {
                None
            },
        }
    }
}

pub open spec fn is_var_args(m: ParameterMode) -> bool {
    m == ParameterMode::VarArgs
}

pub open spec fn is_var_kwargs(m: ParameterMode) -> bool {
    m == ParameterMode::VarKwargsUniform || m == ParameterMode::VarKwargsUnpackedTypedDict
}

impl ArgumentsV3Validator {
    /// Builds the validator from the parameters of the schema. Fails at the first
    /// parameter with an unknown mode, with a validator that omits the value on error,
    /// or without a default after one with a default (unless a keyword-only parameter
    /// came before or is this one).
    pub fn build(
        schemas: Vec<ParameterSchema>,
        populate_by_name: bool,
        loc_by_alias: bool,
        extra: ExtraBehavior,
    ) -> (r: Result<ArgumentsV3Validator, String>)
        ensures
            r matches Ok(v) ==> {
                &&& forall|i: int| 0 <= i < schemas.len() ==> parameter_error(schemas@, i) is None
                &&& v.parameters@.len() == schemas.len()
                &&& forall|i: int|
                    0 <= i < schemas.len() ==> #[trigger] v.parameters@[i] == parameter_from_schema(
                        schemas@[i],
                        populate_by_name,
                    )
                &&& v.positional_params_count == count_positional(v.parameters@, v.parameters@.len() as int)
                &&& v.loc_by_alias == loc_by_alias
                &&& v.extra == extra
            },
            r matches Err(m) ==> exists|i: int|
                0 <= i < schemas.len() && parameter_error(schemas@, i) == Some(m@) && forall|j: int|
                    0 <= j < i ==> parameter_error(schemas@, j) is None,
    {
        let ghost all = schemas@;
        let mut rest = schemas;
        let mut parameters: Vec<Parameter> = Vec::new();
        let mut had_default_arg = false;
        let mut had_kw_only = false;
        let mut positional_params_count: usize = 0;
        let ghost mut i: int = 0;
        while rest.len() > 0
            invariant
                0 <= i <= all.len(),
                all == schemas@,
                rest@ == all.subrange(i, all.len() as int),
                parameters@.len() == i,
                forall|j: int| 0 <= j < i ==> #[trigger] parameters@[j] == parameter_from_schema(all[j], populate_by_name),
                forall|j: int| 0 <= j < i ==> parameter_error(all, j) is None,
                had_default_arg == had_default(all, i),
                had_kw_only == had_keyword_only(all, i),
                positional_params_count == count_positional(parameters@, i),
                positional_params_count <= i,
            decreases rest.len(),
        {
            let s = rest.remove(0);
            proof {
                assert(s == all[i]);
            }
            let mode = match &s.mode {
                Some(m) => match ParameterMode::from_str(m.as_str()) {
                    Ok(mode) => mode,
                    Err(msg) => {
                        return Err(msg);
                    },
                },
                None => ParameterMode::PositionalOrKeyword,
            };
            if mode == ParameterMode::KeywordOnly {
                had_kw_only = true;
            }
            proof {
                assert(schema_mode(all[i]) == Some(mode));
                if schema_mode(all[i]) == Some(ParameterMode::KeywordOnly) {
                    assert(had_keyword_only(all, i + 1));
                } else if had_keyword_only(all, i) {
                    let j = choose|j: int| 0 <= j < i && #[trigger] schema_mode(all[j]) == Some(ParameterMode::KeywordOnly);
                    assert(had_keyword_only(all, i + 1));
                } else {
                    assert forall|j: int| 0 <= j < i + 1 implies !(#[trigger] schema_mode(all[j]) == Some(
                        ParameterMode::KeywordOnly,
                    )) by {
                        if j < i {
                            assert(!had_keyword_only(all, i));
                        }
                    }
                }
            }
            if let Some(e) = &s.schema_error {
                let mut m = String::from_str("Parameter '");
                m.append(s.name.as_str());
                m.append("':\n  ");
                m.append(e.as_str());
                return Err(m);
            }
            if s.omit_on_error {
                let mut m = String::from_str("Parameter '");
                m.append(s.name.as_str());
                m.append("': omit_on_error cannot be used with arguments");
                return Err(m);
            }
            if had_default_arg && !s.has_default && !had_kw_only {
                let mut m = String::from_str("Non-default argument '");
                m.append(s.name.as_str());
                m.append("' follows default argument");
                return Err(m);
            }
            if s.has_default {
                had_default_arg = true;
            }
            proof {
                assert(parameter_error(all, i) is None);
                if all[i].has_default {
                    assert(had_default(all, i + 1));
                } else if had_default(all, i) {
                    let j = choose|j: int| 0 <= j < i && #[trigger] all[j].has_default;
                    assert(had_default(all, i + 1));
                } else {
                    assert forall|j: int| 0 <= j < i + 1 implies !#[trigger] all[j].has_default by {
                        if j < i {
                            assert(!had_default(all, i));
                        }
                    }
                }
            }
            let lookup = match s.alias {
                Some(alias) => LookupKey {
                    key: alias,
                    alt_key: if populate_by_name {
                        Some(s.name.clone())
                    } else {
                        None
                    },
                },
                None => LookupKey { key: s.name.clone(), alt_key: None },
            };
            let ghost old_params = parameters@;
            parameters.push(Parameter { name: s.name, mode, lookup_key: lookup, has_default: s.has_default });
            assert(positional_params_count < parameters.len());
            if mode == ParameterMode::PositionalOnly || mode == ParameterMode::PositionalOrKeyword {
                positional_params_count = positional_params_count + 1;
            }
            proof {
                assert(parameters@[i] == parameter_from_schema(all[i], populate_by_name));
                lemma_count_positional_prefix(parameters@, old_params, i);
                i = i + 1;
                assert(all.subrange(i, all.len() as int) =~= rest@);
            }
        }
        Ok(ArgumentsV3Validator { parameters, positional_params_count, loc_by_alias, extra })
    }
}

proof fn lemma_count_positional_prefix(a: Seq<Parameter>, b: Seq<Parameter>, n: int)
    requires
        0 <= n <= b.len(),
        b.len() <= a.len(),
        forall|j: int| 0 <= j < b.len() ==> a[j] == b[j],
    ensures
        count_positional(a, n) == count_positional(b, n),
        count_non_variadic(a, n) == count_non_variadic(b, n),
    decreases n,
{
    if n > 0 {
        lemma_count_positional_prefix(a, b, n - 1);
    }
}

/// The key string that `lookup` finds among `keys` (where it finds one).
pub open spec fn found_key(lookup: LookupKey, keys: Seq<InputKey>) -> String {
    if crate::lookup::find_key(keys, lookup.key@) is Some {
        lookup.key
    } else {
        lookup.alt_key->Some_0
    }
}

impl ArgumentsV3Validator {
    pub open spec fn wf(self) -> bool {
        &&& self.parameters.len() <= i64::MAX
        &&& self.positional_params_count == count_positional(self.parameters@, self.parameters@.len() as int)
    }

    /// The location of an error about the parameter `p`, whose value was found under `key`.
    pub open spec fn key_loc(self, p: Parameter, key: String) -> LocItem {
        if self.loc_by_alias {
            LocItem::S(key)
        } else {
            LocItem::S(p.name)
        }
    }

    /// Where the value for the non-variadic parameter `p` (the `pi`-th parameter, the
    /// `idx`-th non-variadic one) comes from, or the error about it.
    pub open spec fn param_step(
        self,
        p: Parameter,
        pi: int,
        idx: int,
        args_len: Option<usize>,
        kwargs: Option<Seq<InputKey>>,
    ) -> Step {
        let pos = match args_len {
            Some(n) => p.mode.takes_position() && idx < n,
            None => false,
        };
        let kw = match kwargs {
            Some(keys) => if p.mode.takes_keyword() {
                lookup_spec(p.lookup_key, keys)
            } else {
                None
            },
            None => None,
        };
        if pos && kw is Some {
            Step::Fail {
                error_type: ErrorType::MultipleArgumentValues,
                loc: Some(LocItem::S(p.name)),
                input: ErrorInput::Keyword(kw->Some_0.1 as usize),
            }
        } else if pos {
            Step::Fill {
                source: Source::Positional(idx as usize),
                validator: Inner::Item(pi as usize),
                target: Target::Args,
                loc: Some(LocItem::I(idx as i64)),
                on_line_errors: OnLineErrors::Collect,
                skip_omit: false,
                mark_set: false,
            }
        } else if let Some((_, k)) = kw {
            Step::Fill {
                source: Source::Keyword(k as usize),
                validator: Inner::Item(pi as usize),
                target: Target::Dict(p.name),
                loc: Some(self.key_loc(p, found_key(p.lookup_key, kwargs->Some_0))),
                on_line_errors: OnLineErrors::Collect,
                skip_omit: false,
                mark_set: false,
            }
        } else if p.has_default {
            Step::Fill {
                source: Source::Default(pi as usize),
                validator: Inner::Nothing,
                target: if p.mode.takes_position() {
                    Target::Dict(p.name)
                } else {
                    Target::Args
                },
                loc: None,
                on_line_errors: OnLineErrors::Stop,
                skip_omit: false,
                mark_set: false,
            }
        } else if p.mode == ParameterMode::PositionalOnly {
            Step::Fail { error_type: ErrorType::MissingPositionalOnlyArgument, loc: Some(LocItem::I(idx as i64)), input: ErrorInput::Whole }
        } else if p.mode == ParameterMode::PositionalOrKeyword {
            Step::Fail { error_type: ErrorType::MissingArgument, loc: Some(self.key_loc(p, p.lookup_key.key)), input: ErrorInput::Whole }
        } else {
            Step::Fail {
                error_type: ErrorType::MissingKeywordOnlyArgument,
                loc: Some(self.key_loc(p, p.lookup_key.key)),
                input: ErrorInput::Whole,
            }
        }
    }

    /// The steps for the non-variadic parameters among the first `n`.
    pub open spec fn bound_steps(self, n: int, args_len: Option<usize>, kwargs: Option<Seq<InputKey>>) -> Seq<Step>
        decreases n,
    {
        if n <= 0 {
            Seq::empty()
        } else {
            let params = self.parameters@;
            let before = self.bound_steps(n - 1, args_len, kwargs);
            if params[n - 1].mode.spec_is_variadic() {
                before
            } else {
                before.push(
                    self.param_step(params[n - 1], n - 1, count_non_variadic(params, n - 1), args_len, kwargs),
                )
            }
        }
    }

    /// The keys that the first `n` parameters took from the keyword arguments.
    pub open spec fn used_keys(self, n: int, kwargs: Option<Seq<InputKey>>) -> Set<Seq<char>>
        decreases n,
    {
        if n <= 0 {
            Set::empty()
        } else {
            let p = self.parameters@[n - 1];
            let before = self.used_keys(n - 1, kwargs);
            match kwargs {
                Some(keys) => if !p.mode.spec_is_variadic() && p.mode.takes_keyword() {
                    match lookup_spec(p.lookup_key, keys) {
                        Some((k, _)) => before.insert(k),
                        None => before,
                    }
                } else {
                    before
                },
                None => before,
            }
        }
    }

    /// The steps for the positional arguments beyond the positional parameters.
    pub open spec fn extra_arg_steps(self, args_len: Option<usize>) -> Seq<Step> {
        let params = self.parameters@;
        let ppc = self.positional_params_count as int;
        match args_len {
            Some(n) => if n > ppc {
                match first_with_mode(params, params.len() as int, false) {
                    Some(q) => Seq::new(
                        (n - ppc) as nat,
                        |j: int|
                            Step::Fill {
                                source: Source::Positional((ppc + j) as usize),
                                validator: Inner::Item(q as usize),
                                target: Target::Args,
                                loc: Some(LocItem::I((ppc + j) as i64)),
                                on_line_errors: OnLineErrors::Collect,
                                skip_omit: false,
                                mark_set: false,
                            },
                    ),
                    None => Seq::new(
                        (n - ppc) as nat,
                        |j: int|
                            Step::Fail {
                                error_type: ErrorType::UnexpectedPositionalArgument,
                                loc: Some(LocItem::I((ppc + j) as i64)),
                                input: ErrorInput::Positional((ppc + j) as usize),
                            },
                    ),
                }
            } else {
                Seq::empty()
            },
            None => Seq::empty(),
        }
    }

    /// The parameter that takes the keyword arguments that no other parameter took.
    pub open spec fn var_kwargs_param(self) -> Option<int> {
        first_with_mode(self.parameters@, self.parameters@.len() as int, true)
    }

    /// The steps for the keyword arguments `keys` that no parameter took.
    pub open spec fn extra_kwarg_steps(self, keys: Seq<InputKey>, used: Set<Seq<char>>) -> Seq<Step>
        decreases keys.len(),
    {
        if keys.len() == 0 {
            Seq::empty()
        } else {
            let before = self.extra_kwarg_steps(keys.drop_last(), used);
            let k = keys.len() - 1;
            match keys.last() {
                InputKey::NotStr(l) => before.push(
                    Step::Fail { error_type: ErrorType::InvalidKey, loc: Some(l), input: ErrorInput::Key(k as usize) },
                ),
                InputKey::Str(s) => if used.contains(s@) {
                    before
                } else {
                    match self.var_kwargs_param() {
                        None => if self.extra == ExtraBehavior::Forbid {
                            before.push(
                                Step::Fail {
                                    error_type: ErrorType::UnexpectedKeywordArgument,
                                    loc: Some(LocItem::S(s)),
                                    input: ErrorInput::Keyword(k as usize),
                                },
                            )
                        } else {
                            before
                        },
                        Some(q) => if self.parameters@[q].mode == ParameterMode::VarKwargsUniform {
                            before.push(
                                Step::Fill {
                                    source: Source::Keyword(k as usize),
                                    validator: Inner::Item(q as usize),
                                    target: Target::Dict(s),
                                    loc: Some(LocItem::S(s)),
                                    on_line_errors: OnLineErrors::Collect,
                                    skip_omit: false,
                                    mark_set: false,
                                },
                            )
                        } else {
                            before
                        },
                    }
                },
            }
        }
    }

    /// The positions of the keyword arguments that are gathered for the unpacked
    /// typed-dict parameter.
    pub open spec fn remaining_keys(self, keys: Seq<InputKey>, used: Set<Seq<char>>) -> Seq<usize>
        decreases keys.len(),
    {
        if keys.len() == 0 {
            Seq::empty()
        } else {
            let before = self.remaining_keys(keys.drop_last(), used);
            match keys.last() {
                InputKey::Str(s) => if !used.contains(s@) && (self.var_kwargs_param() matches Some(q)
                    && self.parameters@[q].mode == ParameterMode::VarKwargsUnpackedTypedDict) {
                    before.push((keys.len() - 1) as usize)
                } else {
                    before
                },
                InputKey::NotStr(_) => before,
            }
        }
    }

    /// The plan for positional and keyword arguments, and the positions of the keyword
    /// arguments gathered for the unpacked typed-dict parameter.
    pub open spec fn spec_argskwargs_plan(self, args_len: Option<usize>, kwargs: Option<Seq<InputKey>>) -> (Seq<Step>, Seq<usize>) {
        let n = self.parameters@.len() as int;
        let used = self.used_keys(n, kwargs);
        let (kw_steps, remaining) = match kwargs {
            Some(keys) => (self.extra_kwarg_steps(keys, used), self.remaining_keys(keys, used)),
            None => (Seq::empty(), Seq::empty()),
        };
        let last = if remaining.len() > 0 {
            seq![
                Step::Fill {
                    source: Source::RemainingKeywords,
                    validator: Inner::Item(self.var_kwargs_param()->Some_0 as usize),
                    target: Target::Merge,
                    loc: None,
                    on_line_errors: OnLineErrors::Collect,
                    skip_omit: false,
                    mark_set: false,
                },
            ]
        } else {
            Seq::empty()
        };
        (self.bound_steps(n, args_len, kwargs) + self.extra_arg_steps(args_len) + kw_steps + last, remaining)
    }
}

impl ArgumentsV3Validator {
    /// The first parameter that takes extra keyword arguments (`var_kwargs`) or extra
    /// positional arguments (otherwise).
    pub fn find_variadic(&self, var_kwargs: bool) -> (r: Option<usize>)
        ensures
            r matches Some(q) ==> first_with_mode(self.parameters@, self.parameters@.len() as int, var_kwargs) == Some(
                q as int,
            ),
            r is None ==> first_with_mode(self.parameters@, self.parameters@.len() as int, var_kwargs) is None,
            r matches Some(q) ==> q < self.parameters.len() && (if var_kwargs {
                is_var_kwargs(self.parameters@[q as int].mode)
            } else {
                is_var_args(self.parameters@[q as int].mode)
            }),
    {
        let mut i: usize = 0;
        while i < self.parameters.len()
            invariant
                i <= self.parameters.len(),
                first_with_mode(self.parameters@, i as int, var_kwargs) is None,
            decreases self.parameters.len() - i,
        {
            let m = self.parameters[i].mode;
            let hit = if var_kwargs {
                m == ParameterMode::VarKwargsUniform || m == ParameterMode::VarKwargsUnpackedTypedDict
            } else {
                m == ParameterMode::VarArgs
            };
            if hit {
                proof {
                    lemma_first_with_mode_stable(self.parameters@, i as int + 1, self.parameters@.len() as int, var_kwargs);
                }
                return Some(i);
            }
            i = i + 1;
        }
        None
    }

    /// Decides, for a call with `args_len` positional arguments (`None`: none given) and
    /// keyword arguments with keys `kwargs`, where the value of each parameter comes from,
    /// what happens to the arguments that no parameter took, and which errors arise from
    /// the binding alone. Also returns the positions of the keyword arguments that are
    /// gathered for an unpacked typed-dict parameter.
    pub fn plan_argskwargs(&self, args_len: Option<usize>, kwargs: Option<&Vec<InputKey>>) -> (r: (Vec<Step>, Vec<usize>))
        requires
            self.wf(),
        ensures
            (r.0@, r.1@) == self.spec_argskwargs_plan(args_len, crate::arguments::keys_view(kwargs)),
    {
        let ghost params = self.parameters@;
        let ghost kws = crate::arguments::keys_view(kwargs);
        let mut steps: Vec<Step> = Vec::new();
        let mut used = string_set_new();
        let n = self.parameters.len();
        let mut i: usize = 0;
        let mut idx: usize = 0;
        while i < n
            invariant
                i <= n,
                n == params.len(),
                params == self.parameters@,
                kws == crate::arguments::keys_view(kwargs),
                self.wf(),
                idx == count_non_variadic(params, i as int),
                idx <= i,
                steps@ == self.bound_steps(i as int, args_len, kws),
                ahash_set_contents(used) == self.used_keys(i as int, kws),
            decreases n - i,
        {
            let p = &self.parameters[i];
            if p.is_variadic() {
                i = i + 1;
                continue;
            }
            let takes_pos = p.mode == ParameterMode::PositionalOnly || p.mode == ParameterMode::PositionalOrKeyword;
            let takes_kw = p.mode == ParameterMode::PositionalOrKeyword || p.mode == ParameterMode::KeywordOnly;
            let pos = match args_len {
                Some(len) => takes_pos && idx < len,
                None => false,
            };
            let kw = match kwargs {
                Some(keys) => if takes_kw {
                    lookup_key(&p.lookup_key, keys)
                } else {
                    None
                },
                None => None,
            };
            match &kw {
                Some((k, _)) => string_set_insert(&mut used, k.clone()),
                None => {},
            }
            let key_loc_name = if self.loc_by_alias {
                p.lookup_key.key.clone()
            } else {
                p.name.clone()
            };
            let step = if pos && kw.is_some() {
                let kw_pos = match &kw {
                    Some((_, kp)) => *kp,
                    None => 0,
                };
                Step::Fail {
                    error_type: ErrorType::MultipleArgumentValues,
                    loc: Some(LocItem::S(p.name.clone())),
                    input: ErrorInput::Keyword(kw_pos),
                }
            } else if pos {
                Step::Fill {
                    source: Source::Positional(idx),
                    validator: Inner::Item(i),
                    target: Target::Args,
                    loc: Some(LocItem::I(idx as i64)),
                    on_line_errors: OnLineErrors::Collect,
                    skip_omit: false,
                    mark_set: false,
                }
            } else if let Some((key, k)) = kw {
                proof {
                    crate::lookup::lemma_find_key(kws->Some_0, p.lookup_key.key@);
                }
                Step::Fill {
                    source: Source::Keyword(k),
                    validator: Inner::Item(i),
                    target: Target::Dict(p.name.clone()),
                    loc: Some(
                        if self.loc_by_alias {
                            LocItem::S(key)
                        } else {
                            LocItem::S(p.name.clone())
                        },
                    ),
                    on_line_errors: OnLineErrors::Collect,
                    skip_omit: false,
                    mark_set: false,
                }
            } else if p.has_default {
                Step::Fill {
                    source: Source::Default(i),
                    validator: Inner::Nothing,
                    target: if takes_pos {
                        Target::Dict(p.name.clone())
                    } else {
                        Target::Args
                    },
                    loc: None,
                    on_line_errors: OnLineErrors::Stop,
                    skip_omit: false,
                    mark_set: false,
                }
            } else if p.mode == ParameterMode::PositionalOnly {
                Step::Fail { error_type: ErrorType::MissingPositionalOnlyArgument, loc: Some(LocItem::I(idx as i64)), input: ErrorInput::Whole }
            } else if p.mode == ParameterMode::PositionalOrKeyword {
                Step::Fail { error_type: ErrorType::MissingArgument, loc: Some(LocItem::S(key_loc_name)), input: ErrorInput::Whole }
            } else {
                Step::Fail { error_type: ErrorType::MissingKeywordOnlyArgument, loc: Some(LocItem::S(key_loc_name)), input: ErrorInput::Whole }
            };
            proof {
                assert(step == self.param_step(params[i as int], i as int, idx as int, args_len, kws));
            }
            steps.push(step);
            idx = idx + 1;
            i = i + 1;
        }
        let ghost bound = steps@;
        let ppc = self.positional_params_count;
        match args_len {
            Some(len) => {
                if len > ppc {
                    let var_args = self.find_variadic(false);
                    let mut j: usize = ppc;
                    while j < len
                        invariant
                            ppc <= j <= len,
                            ppc == self.positional_params_count,
                            var_args matches Some(q) ==> first_with_mode(params, params.len() as int, false) == Some(q as int),
                            var_args is None ==> first_with_mode(params, params.len() as int, false) is None,
                            params == self.parameters@,
                            steps@ =~= bound + self.extra_arg_steps(args_len).subrange(0, (j - ppc) as int),
                            args_len == Some(len),
                        decreases len - j,
                    {
                        let step = match var_args {
                            Some(q) => Step::Fill {
                                source: Source::Positional(j),
                                validator: Inner::Item(q),
                                target: Target::Args,
                                loc: Some(LocItem::I(j as i64)),
                                on_line_errors: OnLineErrors::Collect,
                                skip_omit: false,
                                mark_set: false,
                            },
                            None => Step::Fail {
                                error_type: ErrorType::UnexpectedPositionalArgument,
                                loc: Some(LocItem::I(j as i64)),
                                input: ErrorInput::Positional(j),
                            },
                        };
                        proof {
                            assert(step == self.extra_arg_steps(args_len)[(j - ppc) as int]);
                            assert(self.extra_arg_steps(args_len).subrange(0, (j + 1 - ppc) as int) =~= self.extra_arg_steps(
                                args_len,
                            ).subrange(0, (j - ppc) as int).push(step));
                        }
                        steps.push(step);
                        j = j + 1;
                    }
                    proof {
                        assert(self.extra_arg_steps(args_len).subrange(0, (len - ppc) as int) =~= self.extra_arg_steps(args_len));
                    }
                }
            },
            None => {},
        }
        proof {
            assert(steps@ =~= bound + self.extra_arg_steps(args_len));
        }
        let ghost with_args = steps@;
        let ghost used_all = self.used_keys(n as int, kws);
        let mut remaining: Vec<usize> = Vec::new();
        let var_kwargs = self.find_variadic(true);
        match kwargs {
            Some(keys) => {
                let mut k: usize = 0;
                while k < keys.len()
                    invariant
                        k <= keys.len(),
                        ahash_set_contents(used) == used_all,
                        kws == Some(keys@),
                        params == self.parameters@,
                        var_kwargs matches Some(q) ==> self.var_kwargs_param() == Some(q as int) && q < params.len()
                            && is_var_kwargs(params[q as int].mode),
                        var_kwargs is None ==> self.var_kwargs_param() is None,
                        steps@ =~= with_args + self.extra_kwarg_steps(keys@.subrange(0, k as int), used_all),
                        remaining@ =~= self.remaining_keys(keys@.subrange(0, k as int), used_all),
                    decreases keys.len() - k,
                {
                    proof {
                        assert(keys@.subrange(0, k + 1).drop_last() =~= keys@.subrange(0, k as int));
                    }
                    match &keys[k] {
                        InputKey::NotStr(l) => {
                            steps.push(Step::Fail { error_type: ErrorType::InvalidKey, loc: Some(l.duplicate()), input: ErrorInput::Key(k) });
                        },
                        InputKey::Str(s) => {
                            if !string_set_contains(&used, s.as_str()) {
                                match var_kwargs {
                                    None => {
                                        if self.extra == ExtraBehavior::Forbid {
                                            steps.push(
                                                Step::Fail {
                                                    error_type: ErrorType::UnexpectedKeywordArgument,
                                                    loc: Some(LocItem::S(s.clone())),
                                                    input: ErrorInput::Keyword(k),
                                                },
                                            );
                                        }
                                    },
                                    Some(q) => {
                                        if self.parameters[q].mode == ParameterMode::VarKwargsUniform {
                                            steps.push(
                                                Step::Fill {
                                                    source: Source::Keyword(k),
                                                    validator: Inner::Item(q),
                                                    target: Target::Dict(s.clone()),
                                                    loc: Some(LocItem::S(s.clone())),
                                                    on_line_errors: OnLineErrors::Collect,
                                                    skip_omit: false,
                                                    mark_set: false,
                                                },
                                            );
                                        } else {
                                            remaining.push(k);
                                        }
                                    },
                                }
                            }
                        },
                    }
                    k = k + 1;
                }
                proof {
                    assert(keys@.subrange(0, keys@.len() as int) =~= keys@);
                }
            },
            None => {},
        }
        if remaining.len() > 0 {
            let q = match var_kwargs {
                Some(q) => q,
                None => 0,
            };
            proof {
                lemma_remaining_needs_var_kwargs(*self, kws->Some_0, used_all);
            }
            steps.push(
                Step::Fill {
                    source: Source::RemainingKeywords,
                    validator: Inner::Item(q),
                    target: Target::Merge,
                    loc: None,
                    on_line_errors: OnLineErrors::Collect,
                    skip_omit: false,
                    mark_set: false,
                },
            );
        }
        (steps, remaining)
    }
}

proof fn lemma_first_with_mode_stable(params: Seq<Parameter>, n: int, m: int, var_kwargs: bool)
    requires
        0 <= n <= m,
        first_with_mode(params, n, var_kwargs) is Some,
    ensures
        first_with_mode(params, m, var_kwargs) == first_with_mode(params, n, var_kwargs),
    decreases m - n,
{
    if m > n {
        lemma_first_with_mode_stable(params, n, m - 1, var_kwargs);
    }
}

proof fn lemma_remaining_needs_var_kwargs(v: ArgumentsV3Validator, keys: Seq<InputKey>, used: Set<Seq<char>>)
    requires
        v.remaining_keys(keys, used).len() > 0,
    ensures
        v.var_kwargs_param() is Some,
    decreases keys.len(),
{
    if keys.len() > 0 {
        if v.remaining_keys(keys.drop_last(), used).len() > 0 {
            lemma_remaining_needs_var_kwargs(v, keys.drop_last(), used);
        }
    }
}

} // verus!

verus! {

/// A view of the entries of a nested mapping input: for each entry of the outer
/// mapping, the keys of its value where that value is itself a mapping.
pub open spec fn nested_view(nested: Seq<Option<Vec<InputKey>>>) -> Seq<Option<Seq<InputKey>>> {
    Seq::new(nested.len(), |i: int| match nested[i] {
        Some(v) => Some(v@),
        None => None,
    })
}

/// The steps for the keys `inner` of the mapping found at `pos` for the uniform
/// `**kwargs` parameter `p` (the `pi`-th parameter), found under `found`.
pub open spec fn uniform_kwargs_steps(
    v: ArgumentsV3Validator,
    p: Parameter,
    pi: int,
    pos: int,
    found: String,
    inner: Seq<InputKey>,
) -> Seq<Step>
    decreases inner.len(),
{
    if inner.len() == 0 {
        Seq::empty()
    } else {
        let before = uniform_kwargs_steps(v, p, pi, pos, found, inner.drop_last());
        match inner.last() {
            InputKey::NotStr(l) => before.push(
                Step::Fail {
                    error_type: ErrorType::InvalidKey,
                    loc: Some(l),
                    input: ErrorInput::NestedKey(pos as usize, (inner.len() - 1) as usize),
                },
            ),
            InputKey::Str(s) => before.push(
                Step::Fill {
                    source: Source::Nested(pos as usize, (inner.len() - 1) as usize),
                    validator: Inner::Item(pi as usize),
                    target: Target::Dict(s),
                    loc: Some(v.key_loc(p, found)),
                    on_line_errors: OnLineErrors::Collect,
                    skip_omit: false,
                    mark_set: false,
                },
            ),
        }
    }
}

impl ArgumentsV3Validator {
    /// Whether `validate_from_mapping` can bind a mapping with keys `keys`: no `*args`
    /// parameter is given a value, and the value given to a uniform `**kwargs` parameter
    /// is a mapping.
    pub open spec fn mapping_supported(self, keys: Seq<InputKey>, nested: Seq<Option<Seq<InputKey>>>) -> bool {
        forall|i: int|
            0 <= i < self.parameters@.len() ==> match #[trigger] lookup_spec(self.parameters@[i].lookup_key, keys) {
                Some((_, pos)) => self.parameters@[i].mode != ParameterMode::VarArgs && (self.parameters@[i].mode
                    == ParameterMode::VarKwargsUniform ==> nested[pos] is Some),
                None => true,
            }
    }

    /// The steps for the parameter `p` (the `pi`-th one) when the arguments come as a
    /// mapping with keys `keys`.
    pub open spec fn mapping_param_steps(
        self,
        p: Parameter,
        pi: int,
        keys: Seq<InputKey>,
        nested: Seq<Option<Seq<InputKey>>>,
    ) -> Seq<Step> {
        match lookup_spec(p.lookup_key, keys) {
            Some((_, pos)) => {
                let found = found_key(p.lookup_key, keys);
                if p.mode == ParameterMode::VarKwargsUniform {
                    uniform_kwargs_steps(self, p, pi, pos, found, nested[pos]->Some_0)
                } else if p.mode == ParameterMode::VarKwargsUnpackedTypedDict {
                    seq![
                        Step::Fill {
                            source: Source::KeywordsAt(pos as usize),
                            validator: Inner::Item(pi as usize),
                            target: Target::Merge,
                            loc: None,
                            on_line_errors: OnLineErrors::Collect,
                            skip_omit: false,
                            mark_set: false,
                        },
                    ]
                } else {
                    seq![
                        Step::Fill {
                            source: Source::Keyword(pos as usize),
                            validator: Inner::Item(pi as usize),
                            target: if p.mode == ParameterMode::KeywordOnly {
                                Target::Dict(p.name)
                            } else {
                                Target::Args
                            },
                            loc: Some(self.key_loc(p, found)),
                            on_line_errors: OnLineErrors::Collect,
                            skip_omit: false,
                            mark_set: false,
                        },
                    ]
                }
            },
            None => if p.mode.spec_is_variadic() {
                Seq::empty()
            } else if p.has_default {
                seq![
                    Step::Fill {
                        source: Source::Default(pi as usize),
                        validator: Inner::Nothing,
                        target: if p.mode == ParameterMode::PositionalOnly {
                            Target::Args
                        } else {
                            Target::Dict(p.name)
                        },
                        loc: None,
                        on_line_errors: OnLineErrors::Stop,
                        skip_omit: false,
                        mark_set: false,
                    },
                ]
            } else {
                seq![
                    Step::Fail {
                        error_type: if p.mode == ParameterMode::PositionalOnly {
                            ErrorType::MissingPositionalOnlyArgument
                        } else if p.mode == ParameterMode::PositionalOrKeyword {
                            ErrorType::MissingArgument
                        } else {
                            ErrorType::MissingKeywordOnlyArgument
                        },
                        loc: Some(self.key_loc(p, p.lookup_key.key)),
                        input: ErrorInput::Whole,
                    },
                ]
            },
        }
    }

    /// The steps for the first `n` parameters when the arguments come as a mapping.
    pub open spec fn spec_mapping_plan(self, n: int, keys: Seq<InputKey>, nested: Seq<Option<Seq<InputKey>>>) -> Seq<Step>
        decreases n,
    {
        if n <= 0 {
            Seq::empty()
        } else {
            self.spec_mapping_plan(n - 1, keys, nested) + self.mapping_param_steps(
                self.parameters@[n - 1],
                n - 1,
                keys,
                nested,
            )
        }
    }

    /// Decides, for arguments that come as a mapping with keys `keys` (and, for each entry
    /// whose value is itself a mapping, that mapping's keys in `nested`), where the value
    /// of each parameter comes from and which errors arise from the binding alone.
    pub fn plan_mapping(&self, keys: &Vec<InputKey>, nested: &Vec<Option<Vec<InputKey>>>) -> (r: Vec<Step>)
        requires
            self.wf(),
            nested.len() == keys.len(),
            self.mapping_supported(keys@, nested_view(nested@)),
        ensures
            r@ == self.spec_mapping_plan(self.parameters@.len() as int, keys@, nested_view(nested@)),
    {
        let ghost nv = nested_view(nested@);
        let mut steps: Vec<Step> = Vec::new();
        let n = self.parameters.len();
        let mut i: usize = 0;
        while i < n
            invariant
                i <= n,
                n == self.parameters@.len(),
                self.wf(),
                nested.len() == keys.len(),
                nv == nested_view(nested@),
                self.mapping_supported(keys@, nv),
                steps@ == self.spec_mapping_plan(i as int, keys@, nv),
            decreases n - i,
        {
            let p = &self.parameters[i];
            let ghost before = steps@;
            proof {
                crate::lookup::lemma_find_key(keys@, p.lookup_key.key@);
            }
            match lookup_key(&p.lookup_key, keys) {
                Some((key, pos)) => {
                    proof {
                        assert(match lookup_spec(self.parameters@[i as int].lookup_key, keys@) {
                            Some((_, pos)) => self.parameters@[i as int].mode != ParameterMode::VarArgs && (
                            self.parameters@[i as int].mode == ParameterMode::VarKwargsUniform ==> nv[pos] is Some),
                            None => true,
                        });
                    }
                    let loc_name = if self.loc_by_alias {
                        key
                    } else {
                        p.name.clone()
                    };
                    if p.mode == ParameterMode::VarKwargsUniform {
                        let inner = match &nested[pos] {
                            Some(v) => v,
                            None => {
                                proof {
                                    assert(nv[pos as int] is None);
                                }
                                return steps;
                            },
                        };
                        let mut j: usize = 0;
                        while j < inner.len()
                            invariant
                                j <= inner.len(),
                                nv[pos as int] == Some(inner@),
                                steps@ == before + uniform_kwargs_steps(
                                    *self,
                                    *p,
                                    i as int,
                                    pos as int,
                                    found_key(p.lookup_key, keys@),
                                    inner@.subrange(0, j as int),
                                ),
                                loc_name == (if self.loc_by_alias {
                                    found_key(p.lookup_key, keys@)
                                } else {
                                    p.name
                                }),
                            decreases inner.len() - j,
                        {
                            proof {
                                assert(inner@.subrange(0, j + 1).drop_last() =~= inner@.subrange(0, j as int));
                            }
                            let step = match &inner[j] {
                                InputKey::NotStr(l) => Step::Fail {
                                    error_type: ErrorType::InvalidKey,
                                    loc: Some(l.duplicate()),
                                    input: ErrorInput::NestedKey(pos, j),
                                },
                                InputKey::Str(s) => Step::Fill {
                                    source: Source::Nested(pos, j),
                                    validator: Inner::Item(i),
                                    target: Target::Dict(s.clone()),
                                    loc: Some(LocItem::S(loc_name.clone())),
                                    on_line_errors: OnLineErrors::Collect,
                                    skip_omit: false,
                                    mark_set: false,
                                },
                            };
                            steps.push(step);
                            j = j + 1;
                        }
                        proof {
                            assert(inner@.subrange(0, inner@.len() as int) =~= inner@);
                        }
                    } else if p.mode == ParameterMode::VarKwargsUnpackedTypedDict {
                        steps.push(
                            Step::Fill {
                                source: Source::KeywordsAt(pos),
                                validator: Inner::Item(i),
                                target: Target::Merge,
                                loc: None,
                                on_line_errors: OnLineErrors::Collect,
                                skip_omit: false,
                                mark_set: false,
                            },
                        );
                    } else {
                        steps.push(
                            Step::Fill {
                                source: Source::Keyword(pos),
                                validator: Inner::Item(i),
                                target: if p.mode == ParameterMode::KeywordOnly {
                                    Target::Dict(p.name.clone())
                                } else {
                                    Target::Args
                                },
                                loc: Some(LocItem::S(loc_name)),
                                on_line_errors: OnLineErrors::Collect,
                                skip_omit: false,
                                mark_set: false,
                            },
                        );
                    }
                },
                None => {
                    if p.is_variadic() {
                    } else if p.has_default {
                        steps.push(
                            Step::Fill {
                                source: Source::Default(i),
                                validator: Inner::Nothing,
                                target: if p.mode == ParameterMode::PositionalOnly {
                                    Target::Args
                                } else {
                                    Target::Dict(p.name.clone())
                                },
                                loc: None,
                                on_line_errors: OnLineErrors::Stop,
                                skip_omit: false,
                                mark_set: false,
                            },
                        );
                    } else {
                        let error_type = if p.mode == ParameterMode::PositionalOnly {
                            ErrorType::MissingPositionalOnlyArgument
                        } else if p.mode == ParameterMode::PositionalOrKeyword {
                            ErrorType::MissingArgument
                        } else {
                            ErrorType::MissingKeywordOnlyArgument
                        };
                        let loc_name = if self.loc_by_alias {
                            p.lookup_key.key.clone()
                        } else {
                            p.name.clone()
                        };
                        steps.push(Step::Fail { error_type, loc: Some(LocItem::S(loc_name)), input: ErrorInput::Whole });
                    }
                },
            }
            proof {
                assert(steps@ =~= before + self.mapping_param_steps(self.parameters@[i as int], i as int, keys@, nv));
            }
            i = i + 1;
        }
        steps
    }
}

} // verus!

verus! {

/// How the arguments of a call reach the validator.
#[derive(Debug)]
pub enum ArgsInput {
    /// A mapping from parameter names (or aliases) to values, with its keys, and for each
    /// entry whose value is itself a mapping, that mapping's keys.
    Mapping { keys: Vec<InputKey>, nested: Vec<Option<Vec<InputKey>>> },
    /// Positional arguments (how many, where given) and keyword arguments (their keys,
    /// where given).
    ArgsKwargs { args_len: Option<usize>, kwargs: Option<Vec<InputKey>> },
}

pub open spec fn option_vec_view(v: Option<Vec<InputKey>>) -> Option<Seq<InputKey>> {
    match v {
        Some(k) => Some(k@),
        None => None,
    }
}

impl ArgumentsV3Validator {
    /// Whether `input` is one that the validator can bind (see `mapping_supported`).
    pub open spec fn input_supported(self, input: ArgsInput) -> bool {
        match input {
            ArgsInput::Mapping { keys, nested } => nested.len() == keys.len() && self.mapping_supported(
                keys@,
                nested_view(nested@),
            ),
            ArgsInput::ArgsKwargs { .. } => true,
        }
    }

    /// The plan for `input`.
    pub open spec fn spec_plan(self, input: ArgsInput) -> Seq<Step> {
        match input {
            ArgsInput::Mapping { keys, nested } => self.spec_mapping_plan(
                self.parameters@.len() as int,
                keys@,
                nested_view(nested@),
            ),
            ArgsInput::ArgsKwargs { args_len, kwargs } => self.spec_argskwargs_plan(args_len, option_vec_view(kwargs)).0,
        }
    }

    /// The plan for `input`: where the value of each parameter comes from, what happens
    /// to the arguments that no parameter took, and the errors of the binding alone.
    pub fn plan(&self, input: &ArgsInput) -> (r: Vec<Step>)
        requires
            self.wf(),
            self.input_supported(*input),
        ensures
            r@ == self.spec_plan(*input),
    {
        match input {
            ArgsInput::Mapping { keys, nested } => self.plan_mapping(keys, nested),
            ArgsInput::ArgsKwargs { args_len, kwargs } => {
                let kw = match kwargs {
                    Some(k) => Some(k),
                    None => None,
                };
                assert(crate::arguments::keys_view(kw) == option_vec_view(*kwargs));
                let (steps, _) = self.plan_argskwargs(*args_len, kw);
                steps
            },
        }
    }

    /// Validates a call whose arguments come as `input`: the values that `plan` asks for
    /// are given by `outcomes`, in the order of the plan. The validation fails with the
    /// gathered errors where there are any.
    pub fn validate<T>(&self, input: &ArgsInput, outcomes: Vec<Result<T, crate::errors::ValError>>) -> (r: Result<
        crate::plan::Gathered<T>,
        crate::errors::ValError,
    >)
        requires
            self.wf(),
            self.input_supported(*input),
            outcomes.len() == self.spec_plan(*input).len(),
        ensures
            crate::plan::finished(crate::plan::run_spec(self.spec_plan(*input), outcomes@, outcomes.len() as int), r),
    {
        let steps = self.plan(input);
        crate::plan::run_and_finish(steps, outcomes)
    }
}

} // verus!

verus! {

proof fn lemma_bound_steps_at(
    v: ArgumentsV3Validator,
    n: int,
    args_len: Option<usize>,
    kwargs: Option<Seq<InputKey>>,
)
    requires
        0 <= n <= v.parameters@.len(),
    ensures
        v.bound_steps(n, args_len, kwargs).len() == count_non_variadic(v.parameters@, n),
        forall|i: int| 0 <= i <= n ==> 0 <= #[trigger] count_non_variadic(v.parameters@, i) <= count_non_variadic(v.parameters@, n),
        forall|i: int|
            0 <= i < n && !v.parameters@[i].mode.spec_is_variadic() ==> count_non_variadic(v.parameters@, i)
                < count_non_variadic(v.parameters@, n) && #[trigger] v.bound_steps(n, args_len, kwargs)[count_non_variadic(
                v.parameters@,
                i,
            )] == v.param_step(v.parameters@[i], i, count_non_variadic(v.parameters@, i), args_len, kwargs),
    decreases n,
{
    if n > 0 {
        lemma_bound_steps_at(v, n - 1, args_len, kwargs);
        let before = v.bound_steps(n - 1, args_len, kwargs);
        let params = v.parameters@;
        assert forall|i: int| 0 <= i < n && !params[i].mode.spec_is_variadic() implies count_non_variadic(params, i)
            < count_non_variadic(params, n) && #[trigger] v.bound_steps(n, args_len, kwargs)[count_non_variadic(params, i)]
            == v.param_step(params[i], i, count_non_variadic(params, i), args_len, kwargs) by {
            if i < n - 1 {
                assert(before[count_non_variadic(params, i)] == v.param_step(
                    params[i],
                    i,
                    count_non_variadic(params, i),
                    args_len,
                    kwargs,
                ));
            }
        }
    }
}

/// A parameter that is given both by position and by keyword makes the call fail,
/// whatever the parameters' validators give; the plan says why: multiple values for the
/// parameter, located at its name.
pub proof fn positional_and_keyword_fails<T>(
    v: ArgumentsV3Validator,
    args_len: usize,
    keys: Seq<InputKey>,
    i: int,
    outcomes: Seq<Result<T, ValError>>,
    out: Result<Gathered<T>, ValError>,
)
    requires
        0 <= i < v.parameters@.len(),
        v.parameters@[i].mode == ParameterMode::PositionalOrKeyword,
        count_non_variadic(v.parameters@, i) < args_len,
        lookup_spec(v.parameters@[i].lookup_key, keys) is Some,
        outcomes.len() == v.spec_argskwargs_plan(Some(args_len), Some(keys)).0.len(),
        finished(run_spec(v.spec_argskwargs_plan(Some(args_len), Some(keys)).0, outcomes, outcomes.len() as int), out),
    ensures
        v.spec_argskwargs_plan(Some(args_len), Some(keys)).0.contains(
            Step::Fail {
                error_type: ErrorType::MultipleArgumentValues,
                loc: Some(LocItem::S(v.parameters@[i].name)),
                input: ErrorInput::Keyword(lookup_spec(v.parameters@[i].lookup_key, keys)->Some_0.1 as usize),
            },
        ),
        out is Err,
{
    let n = v.parameters@.len() as int;
    lemma_bound_steps_at(v, n, Some(args_len), Some(keys));
    let plan = v.spec_argskwargs_plan(Some(args_len), Some(keys)).0;
    lemma_bound_steps_at(v, i, Some(args_len), Some(keys));
    let k = count_non_variadic(v.parameters@, i);
    let bound = v.bound_steps(n, Some(args_len), Some(keys));
    assert(bound[k] == v.param_step(v.parameters@[i], i, k, Some(args_len), Some(keys)));
    assert(plan[k] == bound[k]);
    crate::plan::reported_error_fails(plan, outcomes, k, out);
}

} // verus!
