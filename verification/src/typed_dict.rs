//! The `typed-dict` validator: validates the declared entries of a dict, fills in
//! defaults, and handles the entries that it does not declare.
use vstd::prelude::*;
use crate::errors::{ErrorInput, ErrorType, LocItem, ValError};
use crate::extra::ExtraBehavior;
use crate::lookup::{lookup_key, lookup_spec, InputKey, LookupKey};
use crate::model_fields::spec_extra_behavior;
use crate::plan::{finished, run_and_finish, run_spec, Gathered, Inner, OnLineErrors, Source, Step, Target};
use crate::string_set::{ahash_set_contents, string_set_contains, string_set_insert, string_set_new};

verus! {

/// One declared entry of the typed dict.
#[derive(Debug)]
pub struct TypedDictField {
    pub name: String,
    pub validation_alias: Option<String>,
    pub required: bool,
    /// Whether its validator supplies a default.
    pub has_default: bool,
}

/// An entry as the schema describes it.
#[derive(Debug)]
pub struct TypedDictFieldSchema {
    pub name: String,
    pub validation_alias: Option<String>,
    /// Why the entry's own schema could not be built, where it could not.
    pub schema_error: Option<String>,
    pub required: Option<bool>,
    pub has_default: bool,
    /// Whether its validator leaves the value out on error.
    pub omit_on_error: bool,
}

/// The schema of the validator, with the values that it reads from its own config.
#[derive(Debug)]
pub struct TypedDictSchema {
    pub fields: Vec<TypedDictFieldSchema>,
    pub strict: bool,
    pub total: Option<bool>,
    pub extra_behavior: Option<String>,
    pub has_extras_schema: bool,
    pub loc_by_alias: Option<bool>,
    pub validate_by_alias: Option<bool>,
    pub validate_by_name: Option<bool>,
    pub cls_name: Option<String>,
}

#[derive(Debug)]
pub struct TypedDictValidator {
    pub fields: Vec<TypedDictField>,
    pub extra_behavior: ExtraBehavior,
    pub has_extras_validator: bool,
    pub strict: bool,
    pub loc_by_alias: bool,
    pub validate_by_alias: Option<bool>,
    pub validate_by_name: Option<bool>,
    pub cls_name: Option<String>,
}

/// Whether the entry `s` is required, in a typed dict that is `total` or not.
pub open spec fn field_required(s: TypedDictFieldSchema, total: bool) -> bool {
    match s.required {
        Some(r) => r,
        None => total,
    }
}

/// The error that building the entry `s` raises, where it raises one.
pub open spec fn typed_dict_field_error(s: TypedDictFieldSchema, total: bool) -> Option<Seq<char>> {
    match s.schema_error {
        Some(e) => Some("Field \""@ + s.name@ + "\":\n  "@ + e@),
        None => if s.required == Some(true) && s.has_default {
            Some("Field '"@ + s.name@ + "': a required field cannot have a default value"@)
        } else if field_required(s, total) && s.omit_on_error {
            Some("Field '"@ + s.name@ + "': 'on_error = omit' cannot be set for required fields"@)
        } else {
            None
        },
    }
}

/// The error of the first entry among the first `n` that raises one.
pub open spec fn first_typed_dict_error(fields: Seq<TypedDictFieldSchema>, total: bool, n: int) -> Option<Seq<char>>
    decreases n,
{
    if n <= 0 {
        None
    } else {
        match first_typed_dict_error(fields, total, n - 1) {
            Some(e) => Some(e),
            None => typed_dict_field_error(fields[n - 1], total),
        }
    }
}

proof fn lemma_first_typed_dict_error_stays(fields: Seq<TypedDictFieldSchema>, total: bool, n: int, m: int)
    requires
        0 <= n <= m,
        first_typed_dict_error(fields, total, n) is Some,
    ensures
        first_typed_dict_error(fields, total, m) == first_typed_dict_error(fields, total, n),
    decreases m - n,
{
    if m > n {
        lemma_first_typed_dict_error_stays(fields, total, n, m - 1);
    }
}

/// The error that building the validator from `schema` raises, where it raises one.
pub open spec fn typed_dict_build_error(schema: TypedDictSchema) -> Option<Seq<char>> {
    match spec_extra_behavior(schema.extra_behavior) {
        Err(e) => Some(e),
        Ok(eb) => if schema.has_extras_schema && eb != ExtraBehavior::Allow {
            Some("extras_schema can only be used if extra_behavior=allow"@)
        } else {
            first_typed_dict_error(schema.fields@, schema.total != Some(false), schema.fields@.len() as int)
        },
    }
}

pub open spec fn typed_dict_field_from_schema(s: TypedDictFieldSchema, total: bool) -> TypedDictField {
    TypedDictField {
        name: s.name,
        validation_alias: s.validation_alias,
        required: field_required(s, total),
        has_default: s.has_default,
    }
}

/// The message of the error where an entry can be looked up neither by alias nor by name.
pub open spec fn no_lookup_message() -> Seq<char> {
    "`validate_by_alias` and `validate_by_name` cannot both be set to `False`."@
}

/// How the entry `f` is looked up: by its alias and then its name, by its alias, or by
/// its name, as `by_alias` and `by_name` allow (at least one of them holds).
pub open spec fn select_lookup(f: TypedDictField, by_alias: bool, by_name: bool) -> LookupKey {
    match f.validation_alias {
        Some(alias) => if by_alias && by_name {
            LookupKey { key: alias, alt_key: Some(f.name) }
        } else if by_alias {
            LookupKey { key: alias, alt_key: None }
        } else {
            LookupKey { key: f.name, alt_key: None }
        },
        None => LookupKey { key: f.name, alt_key: None },
    }
}

impl TypedDictValidator {
    /// Builds the validator; fails on an unknown extra behavior, on an extras schema
    /// without `extra_behavior='allow'`, and at the first entry whose schema could not be
    /// built, that is required and has a default, or that is required and omitted on error.
    pub fn build(schema: TypedDictSchema) -> (r: Result<TypedDictValidator, String>)
        ensures
            typed_dict_build_error(schema) matches Some(e) ==> (r matches Err(m) && m@ == e),
            typed_dict_build_error(schema) is None ==> (r matches Ok(v) && {
                &&& v.fields@.len() == schema.fields.len()
                &&& forall|i: int|
                    0 <= i < schema.fields.len() ==> #[trigger] v.fields@[i] == typed_dict_field_from_schema(
                        schema.fields@[i],
                        schema.total != Some(false),
                    )
                &&& spec_extra_behavior(schema.extra_behavior) == Ok::<ExtraBehavior, Seq<char>>(v.extra_behavior)
                &&& v.has_extras_validator == schema.has_extras_schema
                &&& v.strict == schema.strict
                &&& v.loc_by_alias == (schema.loc_by_alias != Some(false))
                &&& v.validate_by_alias == schema.validate_by_alias
                &&& v.validate_by_name == schema.validate_by_name
                &&& v.cls_name == schema.cls_name
            }),
    {
        let total = match schema.total {
            Some(t) => t,
            None => true,
        };
        let extra_behavior = match &schema.extra_behavior {
            None => ExtraBehavior::Ignore,
            Some(s) => match ExtraBehavior::from_str(s.as_str()) {
                Ok(e) => e,
                Err(m) => {
                    return Err(m);
                },
            },
        };
        if schema.has_extras_schema && extra_behavior != ExtraBehavior::Allow {
            return Err(String::from_str("extras_schema can only be used if extra_behavior=allow"));
        }
        let ghost all = schema.fields@;
        let mut rest = schema.fields;
        let mut fields: Vec<TypedDictField> = Vec::new();
        let ghost mut i: int = 0;
        while rest.len() > 0
            invariant
                0 <= i <= all.len(),
                all == schema.fields@,
                rest@ == all.subrange(i, all.len() as int),
                fields@.len() == i,
                total == (schema.total != Some(false)),
                forall|j: int| 0 <= j < i ==> #[trigger] fields@[j] == typed_dict_field_from_schema(all[j], total),
                first_typed_dict_error(all, total, i) is None,
                spec_extra_behavior(schema.extra_behavior) == Ok::<ExtraBehavior, Seq<char>>(extra_behavior),
                !(schema.has_extras_schema && extra_behavior != ExtraBehavior::Allow),
            decreases rest.len(),
        {
            let s = rest.remove(0);
            proof {
                assert(s == all[i]);
            }
            let err = match &s.schema_error {
                Some(e) => {
                    let mut m = String::from_str("Field \"");
                    m.append(s.name.as_str());
                    m.append("\":\n  ");
                    m.append(e.as_str());
                    Some(m)
                },
                None => {
                    let required = match s.required {
                        Some(r) => r,
                        None => total,
                    };
                    if s.required == Some(true) && s.has_default {
                        let mut m = String::from_str("Field '");
                        m.append(s.name.as_str());
                        m.append("': a required field cannot have a default value");
                        Some(m)
                    } else if required && s.omit_on_error {
                        let mut m = String::from_str("Field '");
                        m.append(s.name.as_str());
                        m.append("': 'on_error = omit' cannot be set for required fields");
                        Some(m)
                    } else {
                        None
                    }
                },
            };
            match err {
                Some(m) => {
                    proof {
                        assert(first_typed_dict_error(all, total, i + 1) == Some(m@));
                        lemma_first_typed_dict_error_stays(all, total, i + 1, all.len() as int);
                    }
                    return Err(m);
                },
                None => {},
            }
            let required = match s.required {
                Some(r) => r,
                None => total,
            };
            fields.push(
                TypedDictField { name: s.name, validation_alias: s.validation_alias, required, has_default: s.has_default },
            );
            proof {
                assert(fields@[i] == typed_dict_field_from_schema(all[i], total));
                i = i + 1;
                assert(all.subrange(i, all.len() as int) =~= rest@);
            }
        }
        let loc_by_alias = match schema.loc_by_alias {
            Some(b) => b,
            None => true,
        };
        Ok(
            TypedDictValidator {
                fields,
                extra_behavior,
                has_extras_validator: schema.has_extras_schema,
                strict: schema.strict,
                loc_by_alias,
                validate_by_alias: schema.validate_by_alias,
                validate_by_name: schema.validate_by_name,
                cls_name: schema.cls_name,
            },
        )
    }

    /// The name of the validator: the class's name, or `typed-dict`.
    pub fn get_name(&self) -> (r: String)
        ensures
            r@ == (match self.cls_name {
                Some(n) => n@,
                None => "typed-dict"@,
            }),
    {
        match &self.cls_name {
            Some(n) => n.clone(),
            None => String::from_str("typed-dict"),
        }
    }
}

} // verus!

verus! {

/// Whether the last key of `keys` is the string `k` (the key that partial validation
/// treats as possibly incomplete).
pub open spec fn is_last_key(keys: Seq<InputKey>, k: Seq<char>) -> bool {
    keys.len() > 0 && keys.last().is_str(k)
}

impl TypedDictValidator {
    /// The location of an error about the entry `f`, whose value was found under `key`.
    pub open spec fn field_loc(self, f: TypedDictField, key: String) -> LocItem {
        if self.loc_by_alias {
            LocItem::S(key)
        } else {
            LocItem::S(f.name)
        }
    }

    /// The steps for the entry `f` (the `i`-th) in a dict with keys `keys`, looking it up
    /// as `by_alias` and `by_name` allow; `partial`: whether the last key may be incomplete.
    pub open spec fn field_steps(
        self,
        f: TypedDictField,
        i: int,
        keys: Seq<InputKey>,
        by_alias: bool,
        by_name: bool,
        partial: bool,
    ) -> Seq<Step> {
        let lk = select_lookup(f, by_alias, by_name);
        match lookup_spec(lk, keys) {
            Some((k, pos)) => seq![
                Step::Fill {
                    source: Source::Keyword(pos as usize),
                    validator: Inner::Item(i as usize),
                    target: Target::Dict(f.name),
                    loc: Some(self.field_loc(f, crate::arguments_v3::found_key(lk, keys))),
                    on_line_errors: if partial && is_last_key(keys, k) && !f.required {
                        OnLineErrors::Drop
                    } else {
                        OnLineErrors::Collect
                    },
                    skip_omit: true,
                    mark_set: true,
                },
            ],
            None => if f.has_default {
                seq![
                    Step::Fill {
                        source: Source::Default(i as usize),
                        validator: Inner::Nothing,
                        target: Target::Dict(f.name),
                        loc: None,
                        on_line_errors: OnLineErrors::Collect,
                        skip_omit: true,
                        mark_set: false,
                    },
                ]
            } else if f.required {
                seq![Step::Fail { error_type: ErrorType::Missing, loc: Some(self.field_loc(f, lk.key)), input: ErrorInput::Whole }]
            } else {
                Seq::empty()
            },
        }
    }

    /// The steps for the first `n` entries.
    pub open spec fn fields_plan(self, n: int, keys: Seq<InputKey>, by_alias: bool, by_name: bool, partial: bool) -> Seq<Step>
        decreases n,
    {
        if n <= 0 {
            Seq::empty()
        } else {
            self.fields_plan(n - 1, keys, by_alias, by_name, partial) + self.field_steps(
                self.fields@[n - 1],
                n - 1,
                keys,
                by_alias,
                by_name,
                partial,
            )
        }
    }

    /// The keys that the first `n` entries took.
    pub open spec fn used_keys(self, n: int, keys: Seq<InputKey>, by_alias: bool, by_name: bool) -> Set<Seq<char>>
        decreases n,
    {
        if n <= 0 {
            Set::empty()
        } else {
            let before = self.used_keys(n - 1, keys, by_alias, by_name);
            match lookup_spec(select_lookup(self.fields@[n - 1], by_alias, by_name), keys) {
                Some((k, _)) => before.insert(k),
                None => before,
            }
        }
    }

    /// The steps for the extra entry with the key `s` at position `pos`.
    pub open spec fn extra_entry_steps(self, keys: Seq<InputKey>, s: String, pos: int, partial: bool) -> Seq<Step> {
        match self.extra_behavior {
            ExtraBehavior::Forbid => seq![
                Step::Fail {
                    error_type: ErrorType::ExtraForbidden,
                    loc: Some(LocItem::S(s)),
                    input: ErrorInput::Keyword(pos as usize),
                },
            ],
            ExtraBehavior::Ignore => Seq::empty(),
            ExtraBehavior::Allow => seq![
                Step::Fill {
                    source: Source::Keyword(pos as usize),
                    validator: if self.has_extras_validator {
                        Inner::Extras
                    } else {
                        Inner::Nothing
                    },
                    target: Target::Dict(s),
                    loc: Some(LocItem::S(s)),
                    on_line_errors: if self.has_extras_validator && partial && is_last_key(keys, s@) {
                        OnLineErrors::Drop
                    } else {
                        OnLineErrors::Collect
                    },
                    skip_omit: false,
                    mark_set: false,
                },
            ],
        }
    }

    /// The steps for the entries among the first `n` keys that no declared entry took.
    pub open spec fn extra_steps(self, keys: Seq<InputKey>, n: int, used: Set<Seq<char>>, partial: bool) -> Seq<Step>
        decreases n,
    {
        if n <= 0 {
            Seq::empty()
        } else {
            let before = self.extra_steps(keys, n - 1, used, partial);
            match keys[n - 1] {
                InputKey::NotStr(l) => before.push(
                    Step::Fail { error_type: ErrorType::InvalidKey, loc: Some(l), input: ErrorInput::Key((n - 1) as usize) },
                ),
                InputKey::Str(s) => if used.contains(s@) {
                    before
                } else {
                    before + self.extra_entry_steps(keys, s, n - 1, partial)
                },
            }
        }
    }

    /// The plan for a dict with keys `keys` (read by attributes where `from_attributes`),
    /// looking entries up as `by_alias` and `by_name` allow.
    pub open spec fn spec_plan(
        self,
        keys: Seq<InputKey>,
        from_attributes: bool,
        by_alias: bool,
        by_name: bool,
        partial: bool,
    ) -> Seq<Step> {
        let n = self.fields@.len() as int;
        let field_steps = self.fields_plan(n, keys, by_alias, by_name, partial);
        if self.extra_behavior != ExtraBehavior::Ignore && !from_attributes {
            field_steps + self.extra_steps(keys, keys.len() as int, self.used_keys(n, keys, by_alias, by_name), partial)
        } else {
            field_steps
        }
    }

    /// Whether entries are looked up by alias: as the validation asks (`state`), else as
    /// the config says, else yes.
    pub open spec fn spec_by_alias(self, state: Option<bool>) -> bool {
        match state {
            Some(b) => b,
            None => match self.validate_by_alias {
                Some(b) => b,
                None => true,
            },
        }
    }

    /// Whether entries are looked up by name: as the validation asks (`state`), else as
    /// the config says, else no.
    pub open spec fn spec_by_name(self, state: Option<bool>) -> bool {
        match state {
            Some(b) => b,
            None => match self.validate_by_name {
                Some(b) => b,
                None => false,
            },
        }
    }

    /// Decides, for a dict with keys `keys`, where the value of each declared entry comes
    /// from and what happens to the other entries. `by_alias` and `by_name` are what the
    /// validation asks for, if anything; where both end up off and there are entries to
    /// look up, the validation cannot proceed.
    pub fn plan(
        &self,
        keys: &Vec<InputKey>,
        from_attributes: bool,
        by_alias: Option<bool>,
        by_name: Option<bool>,
        partial: bool,
    ) -> (r: Result<Vec<Step>, ValError>)
        ensures
            (self.fields.len() > 0 && !self.spec_by_alias(by_alias) && !self.spec_by_name(by_name)) ==> (r matches Err(
                ValError::Internal(m),
            ) && m@ == no_lookup_message()),
            !(self.fields.len() > 0 && !self.spec_by_alias(by_alias) && !self.spec_by_name(by_name)) ==> (r matches Ok(
                steps,
            ) && steps@ == self.spec_plan(
                keys@,
                from_attributes,
                self.spec_by_alias(by_alias),
                self.spec_by_name(by_name),
                partial,
            )),
    {
        let ba = match by_alias {
            Some(b) => b,
            None => match self.validate_by_alias {
                Some(b) => b,
                None => true,
            },
        };
        let bn = match by_name {
            Some(b) => b,
            None => match self.validate_by_name {
                Some(b) => b,
                None => false,
            },
        };
        if self.fields.len() > 0 && !ba && !bn {
            return Err(
                ValError::Internal(
                    String::from_str("`validate_by_alias` and `validate_by_name` cannot both be set to `False`."),
                ),
            );
        }
        let mut steps: Vec<Step> = Vec::new();
        let mut used = string_set_new();
        let n = self.fields.len();
        let mut i: usize = 0;
        while i < n
            invariant
                i <= n,
                n == self.fields@.len(),
                steps@ == self.fields_plan(i as int, keys@, ba, bn, partial),
                ahash_set_contents(used) == self.used_keys(i as int, keys@, ba, bn),
            decreases n - i,
        {
            let f = &self.fields[i];
            let lk = match &f.validation_alias {
                Some(alias) => if ba && bn {
                    LookupKey { key: alias.clone(), alt_key: Some(f.name.clone()) }
                } else if ba {
                    LookupKey { key: alias.clone(), alt_key: None }
                } else {
                    LookupKey { key: f.name.clone(), alt_key: None }
                },
                None => LookupKey { key: f.name.clone(), alt_key: None },
            };
            proof {
                assert(lk == select_lookup(*f, ba, bn));
                crate::lookup::lemma_find_key(keys@, lk.key@);
            }
            let ghost before = steps@;
            match lookup_key(&lk, keys) {
                Some((key, pos)) => {
                    string_set_insert(&mut used, key.clone());
                    let last = partial && keys.len() > 0 && match &keys[keys.len() - 1] {
                        InputKey::Str(s) => crate::lookup::str_eq(s.as_str(), key.as_str()),
                        InputKey::NotStr(_) => false,
                    };
                    steps.push(
                        Step::Fill {
                            source: Source::Keyword(pos),
                            validator: Inner::Item(i),
                            target: Target::Dict(f.name.clone()),
                            loc: Some(
                                if self.loc_by_alias {
                                    LocItem::S(key)
                                } else {
                                    LocItem::S(f.name.clone())
                                },
                            ),
                            on_line_errors: if last && !f.required {
                                OnLineErrors::Drop
                            } else {
                                OnLineErrors::Collect
                            },
                            skip_omit: true,
                            mark_set: true,
                        },
                    );
                },
                None => {
                    if f.has_default {
                        steps.push(
                            Step::Fill {
                                source: Source::Default(i),
                                validator: Inner::Nothing,
                                target: Target::Dict(f.name.clone()),
                                loc: None,
                                on_line_errors: OnLineErrors::Collect,
                                skip_omit: true,
                                mark_set: false,
                            },
                        );
                    } else if f.required {
                        let key = if self.loc_by_alias {
                            lk.key
                        } else {
                            f.name.clone()
                        };
                        steps.push(Step::Fail { error_type: ErrorType::Missing, loc: Some(LocItem::S(key)), input: ErrorInput::Whole });
                    }
                },
            }
            proof {
                assert(steps@ =~= before + self.field_steps(self.fields@[i as int], i as int, keys@, ba, bn, partial));
            }
            i = i + 1;
        }
        if self.extra_behavior != ExtraBehavior::Ignore && !from_attributes {
            let ghost bound = steps@;
            let ghost used_all = self.used_keys(n as int, keys@, ba, bn);
            let mut k: usize = 0;
            while k < keys.len()
                invariant
                    k <= keys.len(),
                    ahash_set_contents(used) == used_all,
                    steps@ =~= bound + self.extra_steps(keys@, k as int, used_all, partial),
                decreases keys.len() - k,
            {
                match &keys[k] {
                    InputKey::NotStr(l) => {
                        steps.push(Step::Fail { error_type: ErrorType::InvalidKey, loc: Some(l.duplicate()), input: ErrorInput::Key(k) });
                    },
                    InputKey::Str(s) => {
                        if !string_set_contains(&used, s.as_str()) {
                            let ghost before = steps@;
                            match self.extra_behavior {
                                ExtraBehavior::Forbid => {
                                    steps.push(
                                        Step::Fail {
                                            error_type: ErrorType::ExtraForbidden,
                                            loc: Some(LocItem::S(s.clone())),
                                            input: ErrorInput::Keyword(k),
                                        },
                                    );
                                },
                                ExtraBehavior::Ignore => {},
                                ExtraBehavior::Allow => {
                                    let last = partial && match &keys[keys.len() - 1] {
                                        InputKey::Str(t) => crate::lookup::str_eq(t.as_str(), s.as_str()),
                                        InputKey::NotStr(_) => false,
                                    };
                                    steps.push(
                                        Step::Fill {
                                            source: Source::Keyword(k),
                                            validator: if self.has_extras_validator {
                                                Inner::Extras
                                            } else {
                                                Inner::Nothing
                                            },
                                            target: Target::Dict(s.clone()),
                                            loc: Some(LocItem::S(s.clone())),
                                            on_line_errors: if self.has_extras_validator && last {
                                                OnLineErrors::Drop
                                            } else {
                                                OnLineErrors::Collect
                                            },
                                            skip_omit: false,
                                            mark_set: false,
                                        },
                                    );
                                },
                            }
                            proof {
                                assert(steps@ =~= before + self.extra_entry_steps(keys@, *s, k as int, partial));
                            }
                        }
                    },
                }
                k = k + 1;
            }
        }
        Ok(steps)
    }

    /// Validates a dict with keys `keys`: the values that `plan` asks for are given by
    /// `outcomes`, in the order of the plan. The validation fails with the gathered
    /// errors where there are any.
    pub fn validate<T>(
        &self,
        keys: &Vec<InputKey>,
        from_attributes: bool,
        by_alias: Option<bool>,
        by_name: Option<bool>,
        partial: bool,
        outcomes: Vec<Result<T, ValError>>,
    ) -> (r: Result<Gathered<T>, ValError>)
        requires
            self.fields.len() > 0 && !self.spec_by_alias(by_alias) && !self.spec_by_name(by_name) || outcomes.len()
                == self.spec_plan(keys@, from_attributes, self.spec_by_alias(by_alias), self.spec_by_name(by_name), partial).len(),
        ensures
            (self.fields.len() > 0 && !self.spec_by_alias(by_alias) && !self.spec_by_name(by_name)) ==> (r matches Err(
                ValError::Internal(m),
            ) && m@ == no_lookup_message()),
            !(self.fields.len() > 0 && !self.spec_by_alias(by_alias) && !self.spec_by_name(by_name)) ==> finished(
                run_spec(
                    self.spec_plan(keys@, from_attributes, self.spec_by_alias(by_alias), self.spec_by_name(by_name), partial),
                    outcomes@,
                    outcomes.len() as int,
                ),
                r,
            ),
    {
        match self.plan(keys, from_attributes, by_alias, by_name, partial) {
            Ok(steps) => run_and_finish(steps, outcomes),
            Err(e) => Err(e),
        }
    }
}

} // verus!

verus! {

proof fn lemma_fields_plan_prefix(
    v: TypedDictValidator,
    keys: Seq<InputKey>,
    by_alias: bool,
    by_name: bool,
    partial: bool,
    m: int,
    n: int,
)
    requires
        0 <= m <= n,
    ensures
        v.fields_plan(m, keys, by_alias, by_name, partial).len() <= v.fields_plan(n, keys, by_alias, by_name, partial).len(),
        forall|j: int|
            0 <= j < v.fields_plan(m, keys, by_alias, by_name, partial).len() ==> #[trigger] v.fields_plan(
                n,
                keys,
                by_alias,
                by_name,
                partial,
            )[j] == v.fields_plan(m, keys, by_alias, by_name, partial)[j],
    decreases n - m,
{
    if n > m {
        lemma_fields_plan_prefix(v, keys, by_alias, by_name, partial, m, n - 1);
    }
}

proof fn lemma_extra_fail_step(v: TypedDictValidator, keys: Seq<InputKey>, n: int, used: Set<Seq<char>>, partial: bool, p: int) -> (j: int)
    requires
        v.extra_behavior == ExtraBehavior::Forbid,
        0 <= p < n <= keys.len(),
        keys[p] is Str,
        !used.contains(keys[p]->Str_0@),
    ensures
        0 <= j < v.extra_steps(keys, n, used, partial).len(),
        v.extra_steps(keys, n, used, partial)[j] == (Step::Fail {
            error_type: ErrorType::ExtraForbidden,
            loc: Some(LocItem::S(keys[p]->Str_0)),
            input: ErrorInput::Keyword(p as usize),
        }),
    decreases n,
{
    if p == n - 1 {
        v.extra_steps(keys, n - 1, used, partial).len() as int
    } else {
        lemma_extra_fail_step(v, keys, n - 1, used, partial, p)
    }
}

/// Where the typed dict forbids extra entries, a dict (not read by attributes) with a key
/// that no declared entry takes fails to validate, whatever the entries' validators give.
pub proof fn forbidden_extra_entry_fails<T>(
    v: TypedDictValidator,
    keys: Seq<InputKey>,
    by_alias: bool,
    by_name: bool,
    partial: bool,
    p: int,
    outcomes: Seq<Result<T, ValError>>,
    out: Result<Gathered<T>, ValError>,
)
    requires
        v.extra_behavior == ExtraBehavior::Forbid,
        0 <= p < keys.len(),
        keys[p] is Str,
        !v.used_keys(v.fields@.len() as int, keys, by_alias, by_name).contains(keys[p]->Str_0@),
        outcomes.len() == v.spec_plan(keys, false, by_alias, by_name, partial).len(),
        finished(run_spec(v.spec_plan(keys, false, by_alias, by_name, partial), outcomes, outcomes.len() as int), out),
    ensures
        out is Err,
{
    let n = v.fields@.len() as int;
    let used = v.used_keys(n, keys, by_alias, by_name);
    let j = lemma_extra_fail_step(v, keys, keys.len() as int, used, partial, p);
    let plan = v.spec_plan(keys, false, by_alias, by_name, partial);
    let fp = v.fields_plan(n, keys, by_alias, by_name, partial);
    assert(plan[fp.len() + j] == v.extra_steps(keys, keys.len() as int, used, partial)[j]);
    crate::plan::reported_error_fails(plan, outcomes, fp.len() + j, out);
}

/// A dict that holds no value for a required entry without a default fails to validate,
/// whatever the other entries' validators give.
pub proof fn missing_required_entry_fails<T>(
    v: TypedDictValidator,
    keys: Seq<InputKey>,
    from_attributes: bool,
    by_alias: bool,
    by_name: bool,
    partial: bool,
    i: int,
    outcomes: Seq<Result<T, ValError>>,
    out: Result<Gathered<T>, ValError>,
)
    requires
        0 <= i < v.fields@.len(),
        v.fields@[i].required,
        !v.fields@[i].has_default,
        lookup_spec(select_lookup(v.fields@[i], by_alias, by_name), keys) is None,
        outcomes.len() == v.spec_plan(keys, from_attributes, by_alias, by_name, partial).len(),
        finished(
            run_spec(v.spec_plan(keys, from_attributes, by_alias, by_name, partial), outcomes, outcomes.len() as int),
            out,
        ),
    ensures
        out is Err,
{
    let n = v.fields@.len() as int;
    let plan = v.spec_plan(keys, from_attributes, by_alias, by_name, partial);
    let before = v.fields_plan(i, keys, by_alias, by_name, partial);
    lemma_fields_plan_prefix(v, keys, by_alias, by_name, partial, i + 1, n);
    let k = before.len() as int;
    assert(v.fields_plan(i + 1, keys, by_alias, by_name, partial)[k] is Fail);
    assert(plan[k] == v.fields_plan(n, keys, by_alias, by_name, partial)[k]);
    crate::plan::reported_error_fails(plan, outcomes, k, out);
}

} // verus!
