//! The `model` validator: validates a mapping (or an object's attributes, or a JSON
//! object) against the fields of a model, looked up by their names.
use vstd::prelude::*;
use crate::errors::{ErrorInput, ErrorType, LocItem, ValError};
use crate::index_map::{IndexMap, index_map_contents, index_map_get, index_map_insert, index_map_new};
use crate::lookup::InputKey;
use crate::model_fields::{add_index, lookup_in_range};
use crate::plan::{finished, run_and_finish, run_spec, Gathered, Inner, OnLineErrors, Source, Step, Target};

verus! {

/// One field of the model.
#[derive(Debug)]
pub struct ModelValidatorField {
    pub name: String,
    /// Whether its validator supplies a default.
    pub has_default: bool,
}

/// The schema of the validator, with the values that it reads from the config.
#[derive(Debug)]
pub struct ModelSchema {
    /// The fields, under distinct names.
    pub fields: Vec<ModelValidatorField>,
    pub extra_behavior: Option<String>,
    pub has_extra_validator: bool,
    pub strict: bool,
    pub from_attributes: Option<bool>,
}

#[derive(Debug)]
pub struct ModelValidator {
    pub fields: Vec<ModelValidatorField>,
    /// Each field's name, with the field's index.
    pub names: IndexMap,
    /// Whether entries that are no field are looked at.
    pub check_extra: bool,
    /// Whether such entries are errors.
    pub forbid_extra: bool,
    pub has_extra_validator: bool,
    pub strict: bool,
    pub from_attributes: bool,
}

/// The name table of the first `n` fields.
pub open spec fn names_of(fields: Seq<ModelValidatorField>, n: int) -> Map<Seq<char>, Seq<usize>>
    decreases n,
{
    if n <= 0 {
        Map::empty()
    } else {
        add_index(names_of(fields, n - 1), fields[n - 1].name@, (n - 1) as usize)
    }
}

proof fn lemma_names_in_range(fields: Seq<ModelValidatorField>, n: int)
    requires
        0 <= n <= fields.len(),
    ensures
        lookup_in_range(names_of(fields, n), n),
        forall|k: Seq<char>| #[trigger] names_of(fields, n).dom().contains(k) ==> names_of(fields, n)[k].len() > 0,
    decreases n,
{
    if n > 0 {
        lemma_names_in_range(fields, n - 1);
        let m0 = names_of(fields, n - 1);
        let m1 = names_of(fields, n);
        assert forall|k: Seq<char>, j: int| m1.dom().contains(k) && 0 <= j < m1[k].len() implies #[trigger] m1[k][j] < n by {
            if k != fields[n - 1].name@ {
                assert(m1[k] == m0[k]);
            }
        }
        assert forall|k: Seq<char>| #[trigger] m1.dom().contains(k) implies m1[k].len() > 0 by {
            if k != fields[n - 1].name@ {
                assert(m1[k] == m0[k]);
            }
        }
    }
}

/// The two flags that the extra behavior `s` stands for (entries looked at, entries
/// forbidden), or the error for an unknown behavior.
pub open spec fn spec_extra_flags(s: Option<String>) -> Result<(bool, bool), Seq<char>> {
    match s {
        None => Ok((false, false)),
        Some(s) => if s@ == "allow"@ {
            Ok((true, false))
        } else if s@ == "ignore"@ {
            Ok((false, false))
        } else if s@ == "forbid"@ {
            Ok((true, true))
        } else {
            Err("Invalid extra_behavior: \""@ + s@ + "\""@)
        },
    }
}

impl ModelValidator {
    pub open spec fn wf(self) -> bool {
        &&& index_map_contents(self.names) == names_of(self.fields@, self.fields@.len() as int)
        &&& lookup_in_range(index_map_contents(self.names), self.fields.len() as int)
        &&& forall|k: Seq<char>| #[trigger] index_map_contents(self.names).dom().contains(k) ==> index_map_contents(
            self.names,
        )[k].len() > 0
    }

    /// Builds the validator; fails on an unknown extra behavior, and on an extra
    /// validator where extra entries are not allowed.
    pub fn build(schema: ModelSchema) -> (r: Result<ModelValidator, String>)
        ensures
            spec_extra_flags(schema.extra_behavior) matches Err(e) ==> (r matches Err(m) && m@ == e),
            spec_extra_flags(schema.extra_behavior) matches Ok((check, forbid)) ==> {
                &&& schema.has_extra_validator && !(check && !forbid) ==> (r matches Err(m) && m@
                    == "extra_validator can only be used if extra_behavior=allow"@)
                &&& !(schema.has_extra_validator && !(check && !forbid)) ==> (r matches Ok(v) && v.wf() && v.fields@
                    == schema.fields@ && v.check_extra == check && v.forbid_extra == forbid && v.has_extra_validator
                    == schema.has_extra_validator && v.strict == schema.strict && v.from_attributes == (
                schema.from_attributes == Some(true)))
            },
    {
        let (check_extra, forbid_extra) = match &schema.extra_behavior {
            None => (false, false),
            Some(s) => {
                proof {
                    reveal_strlit("allow");
                    reveal_strlit("ignore");
                    reveal_strlit("forbid");
                    assert("allow"@[0] == 'a' && "ignore"@[0] == 'i' && "forbid"@[0] == 'f');
                }
                if crate::lookup::str_eq(s.as_str(), "allow") {
                    (true, false)
                } else if crate::lookup::str_eq(s.as_str(), "ignore") {
                    (false, false)
                } else if crate::lookup::str_eq(s.as_str(), "forbid") {
                    (true, true)
                } else {
                    let mut m = String::from_str("Invalid extra_behavior: \"");
                    m.append(s.as_str());
                    m.append("\"");
                    return Err(m);
                }
            },
        };
        if schema.has_extra_validator && !(check_extra && !forbid_extra) {
            return Err(String::from_str("extra_validator can only be used if extra_behavior=allow"));
        }
        let mut names = index_map_new();
        let n = schema.fields.len();
        let mut i: usize = 0;
        while i < n
            invariant
                i <= n,
                n == schema.fields@.len(),
                index_map_contents(names) == names_of(schema.fields@, i as int),
            decreases n - i,
        {
            let name = schema.fields[i].name.clone();
            match index_map_get(&names, name.as_str()) {
                Some(v) => {
                    let mut v = v;
                    v.push(i);
                    index_map_insert(&mut names, name, v);
                },
                None => {
                    let mut v: Vec<usize> = Vec::new();
                    v.push(i);
                    proof {
                        assert(v@ =~= seq![i]);
                    }
                    index_map_insert(&mut names, name, v);
                },
            }
            i = i + 1;
        }
        proof {
            lemma_names_in_range(schema.fields@, n as int);
        }
        let from_attributes = match schema.from_attributes {
            Some(b) => b,
            None => false,
        };
        Ok(
            ModelValidator {
                fields: schema.fields,
                names,
                check_extra,
                forbid_extra,
                has_extra_validator: schema.has_extra_validator,
                strict: schema.strict,
                from_attributes,
            },
        )
    }

    /// The field that the string key `k` names, where it names one.
    pub open spec fn field_for(self, k: Seq<char>) -> Option<int> {
        let m = index_map_contents(self.names);
        if m.dom().contains(k) {
            Some(m[k][m[k].len() - 1] as int)
        } else {
            None
        }
    }

    /// The steps for the entries among the first `n` keys, in their order.
    pub open spec fn entry_steps(self, keys: Seq<InputKey>, n: int) -> Seq<Step>
        decreases n,
    {
        if n <= 0 {
            Seq::empty()
        } else {
            let before = self.entry_steps(keys, n - 1);
            match keys[n - 1] {
                InputKey::NotStr(l) => before.push(
                    Step::Fail { error_type: ErrorType::InvalidKey, loc: Some(l), input: ErrorInput::Key((n - 1) as usize) },
                ),
                InputKey::Str(s) => match self.field_for(s@) {
                    Some(j) => before.push(
                        Step::Fill {
                            source: Source::Keyword((n - 1) as usize),
                            validator: Inner::Item(j as usize),
                            target: Target::Dict(self.fields@[j].name),
                            loc: Some(LocItem::S(self.fields@[j].name)),
                            on_line_errors: OnLineErrors::Collect,
                            skip_omit: true,
                            mark_set: true,
                        },
                    ),
                    None => if self.forbid_extra {
                        before.push(
                            Step::Fail {
                                error_type: ErrorType::ExtraForbidden,
                                loc: Some(LocItem::S(s)),
                                input: ErrorInput::Keyword((n - 1) as usize),
                            },
                        )
                    } else if self.check_extra {
                        before.push(
                            Step::Fill {
                                source: Source::Keyword((n - 1) as usize),
                                validator: if self.has_extra_validator {
                                    Inner::Extras
                                } else {
                                    Inner::Nothing
                                },
                                target: Target::Dict(s),
                                loc: Some(LocItem::S(s)),
                                on_line_errors: OnLineErrors::Collect,
                                skip_omit: false,
                                mark_set: true,
                            },
                        )
                    } else {
                        before
                    },
                },
            }
        }
    }

    /// Whether some key among the first `n` of `keys` names the field `j`.
    pub open spec fn field_used(self, keys: Seq<InputKey>, n: int, j: int) -> bool {
        exists|p: int| 0 <= p < n && (#[trigger] keys[p] matches InputKey::Str(s) && self.field_for(s@) == Some(j))
    }

    /// The steps for the fields, among the first `n` of `order`, that no key named.
    pub open spec fn missing_steps(self, keys: Seq<InputKey>, order: Seq<usize>, n: int) -> Seq<Step>
        decreases n,
    {
        if n <= 0 {
            Seq::empty()
        } else {
            let before = self.missing_steps(keys, order, n - 1);
            let j = order[n - 1] as int;
            if self.field_used(keys, keys.len() as int, j) {
                before
            } else if self.fields@[j].has_default {
                before.push(
                    Step::Fill {
                        source: Source::Default(j as usize),
                        validator: Inner::Nothing,
                        target: Target::Dict(self.fields@[j].name),
                        loc: None,
                        on_line_errors: OnLineErrors::Stop,
                        skip_omit: false,
                        mark_set: false,
                    },
                )
            } else {
                before.push(Step::Fail { error_type: ErrorType::Missing, loc: Some(LocItem::S(self.fields@[j].name)), input: ErrorInput::Whole })
            }
        }
    }

    /// `order` lists each of the first `n` field indices exactly once.
    pub open spec fn is_field_order(order: Seq<usize>, n: int) -> bool {
        &&& order.len() == n
        &&& forall|t: int| 0 <= t < order.len() ==> #[trigger] order[t] < n
        &&& forall|t: int, u: int| 0 <= t < u < order.len() ==> order[t] != order[u]
    }

    /// The plan for an input with keys `keys`, where the fields are walked in `order`
    /// to find those that no key named.
    pub open spec fn spec_plan(self, keys: Seq<InputKey>, order: Seq<usize>) -> Seq<Step> {
        self.entry_steps(keys, keys.len() as int) + self.missing_steps(keys, order, order.len() as int)
    }

    /// Decides, for an input with keys `keys`, which field each entry is the value of,
    /// what happens to the entries that name no field, and then, walking the fields in
    /// `order` (each field once), which fields take their default or are missing.
    pub fn plan(&self, keys: &Vec<InputKey>, order: &Vec<usize>) -> (r: Vec<Step>)
        requires
            self.wf(),
            Self::is_field_order(order@, self.fields@.len() as int),
        ensures
            r@ == self.spec_plan(keys@, order@),
    {
        let nf = self.fields.len();
        let mut used: Vec<bool> = Vec::new();
        let mut i: usize = 0;
        while i < nf
            invariant
                i <= nf,
                used@.len() == i,
                forall|j: int| 0 <= j < i ==> !used@[j],
            decreases nf - i,
        {
            used.push(false);
            i = i + 1;
        }
        let mut steps: Vec<Step> = Vec::new();
        let mut p: usize = 0;
        while p < keys.len()
            invariant
                p <= keys.len(),
                nf == self.fields@.len(),
                self.wf(),
                used@.len() == nf,
                forall|j: int| 0 <= j < nf ==> #[trigger] used@[j] == self.field_used(keys@, p as int, j),
                steps@ == self.entry_steps(keys@, p as int),
            decreases keys.len() - p,
        {
            let ghost before_used = used@;
            match &keys[p] {
                InputKey::NotStr(l) => {
                    steps.push(Step::Fail { error_type: ErrorType::InvalidKey, loc: Some(l.duplicate()), input: ErrorInput::Key(p) });
                },
                InputKey::Str(s) => {
                    match index_map_get(&self.names, s.as_str()) {
                        Some(v) => {
                            proof {
                                assert(index_map_contents(self.names)[s@].len() > 0);
                            }
                            let j = v[v.len() - 1];
                            proof {
                                assert(index_map_contents(self.names)[s@][v.len() - 1] == j);
                            }
                            used.set(j, true);
                            let name = self.fields[j].name.clone();
                            steps.push(
                                Step::Fill {
                                    source: Source::Keyword(p),
                                    validator: Inner::Item(j),
                                    target: Target::Dict(name.clone()),
                                    loc: Some(LocItem::S(name)),
                                    on_line_errors: OnLineErrors::Collect,
                                    skip_omit: true,
                                    mark_set: true,
                                },
                            );
                        },
                        None => {
                            if self.forbid_extra {
                                steps.push(
                                    Step::Fail {
                                        error_type: ErrorType::ExtraForbidden,
                                        loc: Some(LocItem::S(s.clone())),
                                        input: ErrorInput::Keyword(p),
                                    },
                                );
                            } else if self.check_extra {
                                steps.push(
                                    Step::Fill {
                                        source: Source::Keyword(p),
                                        validator: if self.has_extra_validator {
                                            Inner::Extras
                                        } else {
                                            Inner::Nothing
                                        },
                                        target: Target::Dict(s.clone()),
                                        loc: Some(LocItem::S(s.clone())),
                                        on_line_errors: OnLineErrors::Collect,
                                        skip_omit: false,
                                        mark_set: true,
                                    },
                                );
                            }
                        },
                    }
                },
            }
            proof {
                assert forall|j: int| 0 <= j < nf implies #[trigger] used@[j] == self.field_used(keys@, p + 1, j) by {
                    if self.field_used(keys@, p as int, j) {
                        let w = choose|w: int| 0 <= w < p && (#[trigger] keys@[w] matches InputKey::Str(s) && self.field_for(s@) == Some(j));
                        assert(0 <= w < p + 1 && (keys@[w] matches InputKey::Str(s) && self.field_for(s@) == Some(j)));
                    }
                    if self.field_used(keys@, p + 1, j) && !self.field_used(keys@, p as int, j) {
                        let w = choose|w: int| 0 <= w < p + 1 && (#[trigger] keys@[w] matches InputKey::Str(s) && self.field_for(s@) == Some(j));
                        assert(w == p);
                    }
                    if keys@[p as int] matches InputKey::Str(s) && self.field_for(s@) == Some(j) {
                        assert(0 <= p < p + 1 && (keys@[p as int] matches InputKey::Str(s) && self.field_for(s@) == Some(j)));
                    }
                }
            }
            p = p + 1;
        }
        let ghost entries = steps@;
        let mut t: usize = 0;
        while t < order.len()
            invariant
                t <= order.len(),
                p == keys.len(),
                nf == self.fields@.len(),
                used@.len() == nf,
                forall|j: int| 0 <= j < nf ==> #[trigger] used@[j] == self.field_used(keys@, p as int, j),
                forall|u: int| 0 <= u < order.len() ==> #[trigger] order@[u] < nf,
                steps@ == entries + self.missing_steps(keys@, order@, t as int),
            decreases order.len() - t,
        {
            let j = order[t];
            if !used[j] {
                let f = &self.fields[j];
                if f.has_default {
                    steps.push(
                        Step::Fill {
                            source: Source::Default(j),
                            validator: Inner::Nothing,
                            target: Target::Dict(f.name.clone()),
                            loc: None,
                            on_line_errors: OnLineErrors::Stop,
                            skip_omit: false,
                            mark_set: false,
                        },
                    );
                } else {
                    steps.push(Step::Fail { error_type: ErrorType::Missing, loc: Some(LocItem::S(f.name.clone())), input: ErrorInput::Whole });
                }
            }
            proof {
                assert(steps@ =~= entries + self.missing_steps(keys@, order@, t + 1));
            }
            t = t + 1;
        }
        steps
    }

    /// Validates an input with keys `keys`: the values that `plan` asks for are given
    /// by `outcomes`, in the order of the plan. The validation fails with the gathered
    /// errors where there are any.
    pub fn validate<T>(&self, keys: &Vec<InputKey>, order: &Vec<usize>, outcomes: Vec<Result<T, ValError>>) -> (r: Result<Gathered<T>, ValError>)
        requires
            self.wf(),
            Self::is_field_order(order@, self.fields@.len() as int),
            outcomes.len() == self.spec_plan(keys@, order@).len(),
        ensures
            finished(run_spec(self.spec_plan(keys@, order@), outcomes@, outcomes.len() as int), r),
    {
        let steps = self.plan(keys, order);
        run_and_finish(steps, outcomes)
    }
}

} // verus!
