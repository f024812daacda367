//! The `model-fields` validator: validates the fields of a model from a mapping (or an
//! object's attributes) or from a JSON object, and handles the entries that the model
//! does not declare.
use vstd::prelude::*;
use crate::errors::{errors_view, ErrorInput, ErrorType, LocItem, ValError, ValLineError};
use crate::extra::ExtraBehavior;
use crate::index_map::{IndexMap, index_map_contents, index_map_get, index_map_insert, index_map_new};
use crate::lookup::{lookup_key, lookup_spec, InputKey, LookupKey};
use crate::plan::{finished, run_and_finish, run_spec, Gathered, Inner, OnLineErrors, Source, Step, Target};
use crate::string_set::{ahash_set_contents, string_set_contains, string_set_insert, string_set_new};

verus! {

/// One field of the model.
#[derive(Debug)]
pub struct ModelField {
    pub name: String,
    pub lookup_key: LookupKey,
    pub frozen: bool,
    /// Whether its validator supplies a default.
    pub has_default: bool,
}

/// A field as the schema describes it.
#[derive(Debug)]
pub struct ModelFieldSchema {
    pub name: String,
    pub validation_alias: Option<String>,
    /// Why the field's own schema could not be built, where it could not.
    pub schema_error: Option<String>,
    pub frozen: Option<bool>,
    pub has_default: bool,
}

/// The schema of the validator, with the values that it reads from the config.
#[derive(Debug)]
pub struct ModelFieldsSchema {
    pub fields: Vec<ModelFieldSchema>,
    pub model_name: Option<String>,
    /// `extra_behavior` of the schema or the config.
    pub extra_behavior: Option<String>,
    pub has_extras_schema: bool,
    pub strict: bool,
    pub from_attributes: Option<bool>,
    pub populate_by_name: Option<bool>,
    pub loc_by_alias: Option<bool>,
}

#[derive(Debug)]
pub struct ModelFieldsValidator {
    pub fields: Vec<ModelField>,
    pub model_name: String,
    pub extra_behavior: ExtraBehavior,
    /// Whether extra entries are validated by a validator of their own.
    pub has_extras_validator: bool,
    pub strict: bool,
    pub from_attributes: bool,
    pub loc_by_alias: bool,
    /// For each key of a JSON object, the fields that take their value from it.
    pub lookup: IndexMap,
}

pub open spec fn spec_extra_behavior(s: Option<String>) -> Result<ExtraBehavior, Seq<char>> {
    match s {
        None => Ok(ExtraBehavior::Ignore),
        Some(s) => if s@ == "allow"@ {
            Ok(ExtraBehavior::Allow)
        } else if s@ == "ignore"@ {
            Ok(ExtraBehavior::Ignore)
        } else if s@ == "forbid"@ {
            Ok(ExtraBehavior::Forbid)
        } else {
            Err("Invalid extra_behavior: \""@ + s@ + "\""@)
        },
    }
}

pub open spec fn model_field_error(s: ModelFieldSchema) -> Option<Seq<char>> {
    match s.schema_error {
        Some(e) => Some("Field \""@ + s.name@ + "\":\n  "@ + e@),
        None => None,
    }
}

pub open spec fn model_field_from_schema(s: ModelFieldSchema, populate_by_name: bool) -> ModelField {
    ModelField {
        name: s.name,
        lookup_key: match s.validation_alias {
            Some(alias) => LookupKey {
                key: alias,
                alt_key: if populate_by_name {
                    Some(s.name)
                } else {
                    None
                },
            },
            None => LookupKey { key: s.name, alt_key: None },
        },
        frozen: s.frozen == Some(true),
        has_default: s.has_default,
    }
}

/// `m` with the position `i` added to the list under `k`.
pub open spec fn add_index(m: Map<Seq<char>, Seq<usize>>, k: Seq<char>, i: usize) -> Map<Seq<char>, Seq<usize>> {
    m.insert(
        k,
        if m.dom().contains(k) {
            m[k].push(i)
        } else {
            seq![i]
        },
    )
}

/// The lookup table of the first `n` fields: each key that a field is looked up by,
/// with the fields (in order) that are looked up by it.
pub open spec fn lookup_entries(fields: Seq<ModelField>, n: int) -> Map<Seq<char>, Seq<usize>>
    decreases n,
{
    if n <= 0 {
        Map::empty()
    } else {
        let lk = fields[n - 1].lookup_key;
        let m = add_index(lookup_entries(fields, n - 1), lk.key@, (n - 1) as usize);
        match lk.alt_key {
            Some(alt) => add_index(m, alt@, (n - 1) as usize),
            None => m,
        }
    }
}

/// The error that building the validator from `schema` raises, given the fields' errors.
pub open spec fn build_error(schema: ModelFieldsSchema) -> Option<Seq<char>> {
    match spec_extra_behavior(schema.extra_behavior) {
        Err(e) => Some(e),
        Ok(eb) => if schema.has_extras_schema && eb != ExtraBehavior::Allow {
            Some("extras_schema can only be used if extra_behavior=allow"@)
        } else {
            match first_field_error(schema.fields@, schema.fields@.len() as int) {
                Some(e) => Some(e),
                None => None,
            }
        },
    }
}

/// The error of the first field among the first `n` whose schema could not be built.
pub open spec fn first_field_error(fields: Seq<ModelFieldSchema>, n: int) -> Option<Seq<char>>
    decreases n,
{
    if n <= 0 {
        None
    } else {
        match first_field_error(fields, n - 1) {
            Some(e) => Some(e),
            None => model_field_error(fields[n - 1]),
        }
    }
}

/// Every position in the lookup table names a field.
pub open spec fn lookup_in_range(m: Map<Seq<char>, Seq<usize>>, n: int) -> bool {
    forall|k: Seq<char>, j: int| #![trigger m[k][j]] m.dom().contains(k) && 0 <= j < m[k].len() ==> m[k][j] < n
}

proof fn lemma_lookup_entries_in_range(fields: Seq<ModelField>, n: int)
    requires
        0 <= n <= fields.len(),
    ensures
        lookup_in_range(lookup_entries(fields, n), n),
    decreases n,
{
    if n > 0 {
        lemma_lookup_entries_in_range(fields, n - 1);
        let lk = fields[n - 1].lookup_key;
        let m0 = lookup_entries(fields, n - 1);
        let m1 = add_index(m0, lk.key@, (n - 1) as usize);
        assert(lookup_in_range(m1, n)) by {
            assert forall|k: Seq<char>, j: int| m1.dom().contains(k) && 0 <= j < m1[k].len() implies #[trigger] m1[k][j] < n by {
                if k != lk.key@ {
                    assert(m1[k] == m0[k]);
                }
            }
        }
        match lk.alt_key {
            Some(alt) => {
                let m2 = add_index(m1, alt@, (n - 1) as usize);
                assert forall|k: Seq<char>, j: int| m2.dom().contains(k) && 0 <= j < m2[k].len() implies #[trigger] m2[k][j] < n by {
                    if k != alt@ {
                        assert(m2[k] == m1[k]);
                    }
                }
            },
            None => {},
        }
    }
}

/// Adds the position `i` to the list under `key` in `m`.
fn add_field_to_map(m: &mut IndexMap, key: String, i: usize)
    ensures
        index_map_contents(*final(m)) == add_index(index_map_contents(*old(m)), key@, i),
{
    match index_map_get(m, key.as_str()) {
        Some(v) => {
            let mut v = v;
            v.push(i);
            index_map_insert(m, key, v);
        },
        None => {
            let mut v: Vec<usize> = Vec::new();
            v.push(i);
            proof {
                assert(v@ =~= seq![i]);
            }
            index_map_insert(m, key, v);
        },
    }
}

impl ModelFieldsValidator {
    pub open spec fn wf(self) -> bool {
        &&& lookup_in_range(index_map_contents(self.lookup), self.fields.len() as int)
        &&& index_map_contents(self.lookup) == lookup_entries(self.fields@, self.fields@.len() as int)
    }

    /// Builds the validator; fails on an unknown extra behavior, on an extras schema
    /// without `extra_behavior='allow'`, and at the first field whose schema could not be
    /// built.
    pub fn build(schema: ModelFieldsSchema) -> (r: Result<ModelFieldsValidator, String>)
        ensures
            build_error(schema) matches Some(e) ==> (r matches Err(m) && m@ == e),
            build_error(schema) is None ==> (r matches Ok(v) && {
                &&& v.wf()
                &&& v.fields@.len() == schema.fields.len()
                &&& forall|i: int|
                    0 <= i < schema.fields.len() ==> #[trigger] v.fields@[i] == model_field_from_schema(
                        schema.fields@[i],
                        schema.populate_by_name == Some(true),
                    )
                &&& v.model_name@ == (match schema.model_name {
                    Some(n) => n@,
                    None => "Model"@,
                })
                &&& spec_extra_behavior(schema.extra_behavior) == Ok::<ExtraBehavior, Seq<char>>(v.extra_behavior)
                &&& v.has_extras_validator == schema.has_extras_schema
                &&& v.strict == schema.strict
                &&& v.from_attributes == (schema.from_attributes == Some(true))
                &&& v.loc_by_alias == (schema.loc_by_alias != Some(false))
            }),
    {
        let populate_by_name = match schema.populate_by_name {
            Some(b) => b,
            None => false,
        };
        let extra_behavior = match &schema.extra_behavior {
            None => ExtraBehavior::Ignore,
            Some(s) => match ExtraBehavior::from_str(s.as_str()) {
                Ok(e) => e,
                Err(m) => {
                    return Err(m);
                },
            },
        };
        if schema.has_extras_schema && extra_behavior != ExtraBehavior::Allow {
            return Err(String::from_str("extras_schema can only be used if extra_behavior=allow"));
        }
        let ghost all = schema.fields@;
        let mut rest = schema.fields;
        let mut fields: Vec<ModelField> = Vec::new();
        let mut map = index_map_new();
        let ghost mut i: int = 0;
        while rest.len() > 0
            invariant
                0 <= i <= all.len(),
                all == schema.fields@,
                rest@ == all.subrange(i, all.len() as int),
                fields@.len() == i,
                forall|j: int| 0 <= j < i ==> #[trigger] fields@[j] == model_field_from_schema(all[j], populate_by_name),
                first_field_error(all, i) is None,
                index_map_contents(map) == lookup_entries(fields@, i),
                populate_by_name == (schema.populate_by_name == Some(true)),
                spec_extra_behavior(schema.extra_behavior) == Ok::<ExtraBehavior, Seq<char>>(extra_behavior),
                !(schema.has_extras_schema && extra_behavior != ExtraBehavior::Allow),
            decreases rest.len(),
        {
            let s = rest.remove(0);
            proof {
                assert(s == all[i]);
            }
            match s.schema_error {
                Some(e) => {
                    let mut m = String::from_str("Field \"");
                    m.append(s.name.as_str());
                    m.append("\":\n  ");
                    m.append(e.as_str());
                    proof {
                        assert(first_field_error(all, i + 1) == Some(m@));
                        lemma_first_field_error_stays(all, i + 1, all.len() as int);
                    }
                    return Err(m);
                },
                None => {},
            }
            let lookup = match s.validation_alias {
                Some(alias) => LookupKey {
                    key: alias,
                    alt_key: if populate_by_name {
                        Some(s.name.clone())
                    } else {
                        None
                    },
                },
                None => LookupKey { key: s.name.clone(), alt_key: None },
            };
            let index = fields.len();
            add_field_to_map(&mut map, lookup.key.clone(), index);
            match &lookup.alt_key {
                Some(alt) => add_field_to_map(&mut map, alt.clone(), index),
                None => {},
            }
            let frozen = match s.frozen {
                Some(b) => b,
                None => false,
            };
            let ghost old_fields = fields@;
            fields.push(ModelField { name: s.name, lookup_key: lookup, frozen, has_default: s.has_default });
            proof {
                assert(fields@[i] == model_field_from_schema(all[i], populate_by_name));
                lemma_lookup_entries_prefix(fields@, old_fields, i);
                i = i + 1;
                assert(all.subrange(i, all.len() as int) =~= rest@);
            }
        }
        proof {
            lemma_lookup_entries_in_range(fields@, fields@.len() as int);
        }
        let model_name = match schema.model_name {
            Some(n) => n,
            None => String::from_str("Model"),
        };
        let loc_by_alias = match schema.loc_by_alias {
            Some(b) => b,
            None => true,
        };
        let from_attributes = match schema.from_attributes {
            Some(b) => b,
            None => false,
        };
        Ok(
            ModelFieldsValidator {
                fields,
                model_name,
                extra_behavior,
                has_extras_validator: schema.has_extras_schema,
                strict: schema.strict,
                from_attributes,
                loc_by_alias,
                lookup: map,
            },
        )
    }
}

proof fn lemma_first_field_error_stays(fields: Seq<ModelFieldSchema>, n: int, m: int)
    requires
        0 <= n <= m,
        first_field_error(fields, n) is Some,
    ensures
        first_field_error(fields, m) == first_field_error(fields, n),
    decreases m - n,
{
    if m > n {
        lemma_first_field_error_stays(fields, n, m - 1);
    }
}

proof fn lemma_lookup_entries_prefix(a: Seq<ModelField>, b: Seq<ModelField>, n: int)
    requires
        0 <= n <= b.len(),
        b.len() <= a.len(),
        forall|j: int| 0 <= j < b.len() ==> a[j] == b[j],
    ensures
        lookup_entries(a, n) == lookup_entries(b, n),
    decreases n,
{
    if n > 0 {
        lemma_lookup_entries_prefix(a, b, n - 1);
    }
}

} // verus!

verus! {

impl ModelFieldsValidator {
    /// The location of an error about the field `f`, whose value was found under `key`.
    pub open spec fn field_loc(self, f: ModelField, key: String) -> LocItem {
        if self.loc_by_alias {
            LocItem::S(key)
        } else {
            LocItem::S(f.name)
        }
    }

    /// The validator of extra entries: their own, or none.
    pub open spec fn extras_inner(self) -> Inner {
        if self.has_extras_validator {
            Inner::Extras
        } else {
            Inner::Nothing
        }
    }

    /// The steps for an extra entry with the key `s` at position `pos`.
    pub open spec fn extra_entry_steps(self, s: String, pos: int) -> Seq<Step> {
        match self.extra_behavior {
            ExtraBehavior::Forbid => seq![
                Step::Fail {
                    error_type: ErrorType::ExtraForbidden,
                    loc: Some(LocItem::S(s)),
                    input: ErrorInput::Keyword(pos as usize),
                },
            ],
            ExtraBehavior::Ignore => Seq::empty(),
            ExtraBehavior::Allow => seq![
                Step::Fill {
                    source: Source::Keyword(pos as usize),
                    validator: self.extras_inner(),
                    target: Target::Extra(s),
                    loc: Some(LocItem::S(s)),
                    on_line_errors: OnLineErrors::Collect,
                    skip_omit: false,
                    mark_set: true,
                },
            ],
        }
    }

    /// The step for the field `f` (the `i`-th) when the input is a mapping with keys `keys`.
    pub open spec fn mapping_field_step(self, f: ModelField, i: int, keys: Seq<InputKey>) -> Step {
        match lookup_spec(f.lookup_key, keys) {
            Some((_, pos)) => Step::Fill {
                source: Source::Keyword(pos as usize),
                validator: Inner::Item(i as usize),
                target: Target::Dict(f.name),
                loc: Some(self.field_loc(f, crate::arguments_v3::found_key(f.lookup_key, keys))),
                on_line_errors: OnLineErrors::Collect,
                skip_omit: true,
                mark_set: true,
            },
            None => self.default_or_missing(f, i),
        }
    }

    /// The step for the field `f` (the `i`-th) when the input holds no value for it.
    pub open spec fn default_or_missing(self, f: ModelField, i: int) -> Step {
        if f.has_default {
            Step::Fill {
                source: Source::Default(i as usize),
                validator: Inner::Nothing,
                target: Target::Dict(f.name),
                loc: None,
                on_line_errors: OnLineErrors::Collect,
                skip_omit: true,
                mark_set: false,
            }
        } else {
            Step::Fail { error_type: ErrorType::Missing, loc: Some(self.field_loc(f, f.lookup_key.key)), input: ErrorInput::Whole }
        }
    }

    /// The keys that the first `n` fields took from a mapping with keys `keys`.
    pub open spec fn used_keys(self, n: int, keys: Seq<InputKey>) -> Set<Seq<char>>
        decreases n,
    {
        if n <= 0 {
            Set::empty()
        } else {
            let before = self.used_keys(n - 1, keys);
            match lookup_spec(self.fields@[n - 1].lookup_key, keys) {
                Some((k, _)) => before.insert(k),
                None => before,
            }
        }
    }

    /// The steps for the entries of a mapping with keys `keys` that no field took.
    pub open spec fn mapping_extra_steps(self, keys: Seq<InputKey>, used: Set<Seq<char>>) -> Seq<Step>
        decreases keys.len(),
    {
        if keys.len() == 0 {
            Seq::empty()
        } else {
            let before = self.mapping_extra_steps(keys.drop_last(), used);
            match keys.last() {
                InputKey::NotStr(l) => before.push(
                    Step::Fail {
                        error_type: ErrorType::InvalidKey,
                        loc: Some(l),
                        input: ErrorInput::Key((keys.len() - 1) as usize),
                    },
                ),
                InputKey::Str(s) => if used.contains(s@) {
                    before
                } else {
                    before + self.extra_entry_steps(s, keys.len() - 1)
                },
            }
        }
    }

    /// Whether extra entries are looked at: they are not where they are ignored, nor where
    /// the input is an object read by its attributes.
    pub open spec fn checks_extra(self, from_attributes: bool) -> bool {
        self.extra_behavior != ExtraBehavior::Ignore && !from_attributes
    }

    /// The plan for a mapping with keys `keys` (read by attributes where `from_attributes`).
    pub open spec fn spec_mapping_plan(self, keys: Seq<InputKey>, from_attributes: bool) -> Seq<Step> {
        let n = self.fields@.len();
        let field_steps = Seq::new(n, |i: int| self.mapping_field_step(self.fields@[i], i, keys));
        if self.checks_extra(from_attributes) {
            field_steps + self.mapping_extra_steps(keys, self.used_keys(n as int, keys))
        } else {
            field_steps
        }
    }

    /// Decides, for an input mapping with keys `keys`, where the value of each field
    /// comes from, and what happens to the entries that no field took.
    pub fn plan_mapping(&self, keys: &Vec<InputKey>, from_attributes: bool) -> (r: Vec<Step>)
        ensures
            r@ == self.spec_mapping_plan(keys@, from_attributes),
    {
        let mut steps: Vec<Step> = Vec::new();
        let mut used = string_set_new();
        let n = self.fields.len();
        let mut i: usize = 0;
        while i < n
            invariant
                i <= n,
                n == self.fields@.len(),
                steps@ =~= Seq::new(i as nat, |j: int| self.mapping_field_step(self.fields@[j], j, keys@)),
                ahash_set_contents(used) == self.used_keys(i as int, keys@),
            decreases n - i,
        {
            let f = &self.fields[i];
            proof {
                crate::lookup::lemma_find_key(keys@, f.lookup_key.key@);
            }
            let step = match lookup_key(&f.lookup_key, keys) {
                Some((key, pos)) => {
                    string_set_insert(&mut used, key.clone());
                    Step::Fill {
                        source: Source::Keyword(pos),
                        validator: Inner::Item(i),
                        target: Target::Dict(f.name.clone()),
                        loc: Some(
                            if self.loc_by_alias {
                                LocItem::S(key)
                            } else {
                                LocItem::S(f.name.clone())
                            },
                        ),
                        on_line_errors: OnLineErrors::Collect,
                        skip_omit: true,
                        mark_set: true,
                    }
                },
                None => self.default_or_missing_step(f, i),
            };
            proof {
                assert(step == self.mapping_field_step(self.fields@[i as int], i as int, keys@));
            }
            steps.push(step);
            i = i + 1;
        }
        if self.extra_behavior != ExtraBehavior::Ignore && !from_attributes {
            let ghost bound = steps@;
            let ghost used_all = self.used_keys(n as int, keys@);
            let mut k: usize = 0;
            while k < keys.len()
                invariant
                    k <= keys.len(),
                    ahash_set_contents(used) == used_all,
                    steps@ =~= bound + self.mapping_extra_steps(keys@.subrange(0, k as int), used_all),
                decreases keys.len() - k,
            {
                proof {
                    assert(keys@.subrange(0, k + 1).drop_last() =~= keys@.subrange(0, k as int));
                }
                match &keys[k] {
                    InputKey::NotStr(l) => {
                        steps.push(Step::Fail { error_type: ErrorType::InvalidKey, loc: Some(l.duplicate()), input: ErrorInput::Key(k) });
                    },
                    InputKey::Str(s) => {
                        if !string_set_contains(&used, s.as_str()) {
                            self.push_extra_entry(&mut steps, s, k);
                        }
                    },
                }
                k = k + 1;
            }
            proof {
                assert(keys@.subrange(0, keys@.len() as int) =~= keys@);
            }
        }
        steps
    }

    fn default_or_missing_step(&self, f: &ModelField, i: usize) -> (r: Step)
        ensures
            r == self.default_or_missing(*f, i as int),
    {
        if f.has_default {
            Step::Fill {
                source: Source::Default(i),
                validator: Inner::Nothing,
                target: Target::Dict(f.name.clone()),
                loc: None,
                on_line_errors: OnLineErrors::Collect,
                skip_omit: true,
                mark_set: false,
            }
        } else {
            let key = if self.loc_by_alias {
                f.lookup_key.key.clone()
            } else {
                f.name.clone()
            };
            Step::Fail { error_type: ErrorType::Missing, loc: Some(LocItem::S(key)), input: ErrorInput::Whole }
        }
    }

    fn push_extra_entry(&self, steps: &mut Vec<Step>, s: &String, pos: usize)
        ensures
            final(steps)@ == old(steps)@ + self.extra_entry_steps(*s, pos as int),
    {
        match self.extra_behavior {
            ExtraBehavior::Forbid => {
                steps.push(
                    Step::Fail { error_type: ErrorType::ExtraForbidden, loc: Some(LocItem::S(s.clone())), input: ErrorInput::Keyword(pos) },
                );
            },
            ExtraBehavior::Ignore => {},
            ExtraBehavior::Allow => {
                steps.push(
                    Step::Fill {
                        source: Source::Keyword(pos),
                        validator: if self.has_extras_validator {
                            Inner::Extras
                        } else {
                            Inner::Nothing
                        },
                        target: Target::Extra(s.clone()),
                        loc: Some(LocItem::S(s.clone())),
                        on_line_errors: OnLineErrors::Collect,
                        skip_omit: false,
                        mark_set: true,
                    },
                );
            },
        }
        proof {
            assert(final(steps)@ =~= old(steps)@ + self.extra_entry_steps(*s, pos as int));
        }
    }
}

} // verus!

verus! {

impl ModelFieldsValidator {
    /// The last position, among the first `n` keys of a JSON object, whose key the field
    /// with index `i` is looked up by: the value that the field takes.
    pub open spec fn json_field_pos(self, keys: Seq<String>, n: int, i: int) -> Option<usize>
        decreases n,
    {
        if n <= 0 {
            None
        } else {
            let m = index_map_contents(self.lookup);
            let k = keys[n - 1]@;
            if m.dom().contains(k) && m[k].contains(i as usize) {
                Some((n - 1) as usize)
            } else {
                self.json_field_pos(keys, n - 1, i)
            }
        }
    }

    /// The steps for the entries of a JSON object with keys `keys` that no field is
    /// looked up by.
    pub open spec fn json_extra_steps(self, keys: Seq<String>) -> Seq<Step>
        decreases keys.len(),
    {
        if keys.len() == 0 {
            Seq::empty()
        } else {
            let before = self.json_extra_steps(keys.drop_last());
            if index_map_contents(self.lookup).dom().contains(keys.last()@) {
                before
            } else {
                before + self.extra_entry_steps(keys.last(), keys.len() - 1)
            }
        }
    }

    /// The step for the field `f` (the `i`-th) of a JSON object, whose value (if any)
    /// is at position `pos`.
    pub open spec fn json_field_step(self, f: ModelField, i: int, pos: Option<usize>) -> Step {
        match pos {
            Some(p) => Step::Fill {
                source: Source::Keyword(p),
                validator: Inner::Item(i as usize),
                target: Target::Dict(f.name),
                loc: Some(LocItem::S(f.name)),
                on_line_errors: OnLineErrors::Collect,
                skip_omit: true,
                mark_set: true,
            },
            None => self.default_or_missing(f, i),
        }
    }

    /// The plan for a JSON object with keys `keys`: the extra entries in the order of the
    /// object, then the fields.
    pub open spec fn spec_json_plan(self, keys: Seq<String>) -> Seq<Step> {
        self.json_extra_steps(keys) + Seq::new(
            self.fields@.len(),
            |i: int| self.json_field_step(self.fields@[i], i, self.json_field_pos(keys, keys.len() as int, i)),
        )
    }

    /// Decides, for a JSON object with keys `keys`, where the value of each field comes
    /// from (the last entry whose key the field is looked up by), and what happens to the
    /// entries that no field is looked up by.
    pub fn plan_json(&self, keys: &Vec<String>) -> (r: Vec<Step>)
        requires
            self.wf(),
        ensures
            r@ == self.spec_json_plan(keys@),
    {
        let nf = self.fields.len();
        let mut field_results: Vec<Option<usize>> = Vec::new();
        let mut i: usize = 0;
        while i < nf
            invariant
                i <= nf,
                field_results@.len() == i,
                forall|j: int| 0 <= j < i ==> field_results@[j] is None,
            decreases nf - i,
        {
            field_results.push(None);
            i = i + 1;
        }
        let mut steps: Vec<Step> = Vec::new();
        let mut p: usize = 0;
        while p < keys.len()
            invariant
                p <= keys.len(),
                nf == self.fields@.len(),
                self.wf(),
                field_results@.len() == nf,
                forall|j: int| 0 <= j < nf ==> #[trigger] field_results@[j] == self.json_field_pos(keys@, p as int, j),
                steps@ == self.json_extra_steps(keys@.subrange(0, p as int)),
            decreases keys.len() - p,
        {
            proof {
                assert(keys@.subrange(0, p + 1).drop_last() =~= keys@.subrange(0, p as int));
            }
            let key = &keys[p];
            match index_map_get(&self.lookup, key.as_str()) {
                Some(v) => {
                    let ghost before = field_results@;
                    let mut j: usize = 0;
                    while j < v.len()
                        invariant
                            j <= v.len(),
                            field_results@.len() == nf,
                            before.len() == nf,
                            index_map_contents(self.lookup)[key@] == v@,
                            index_map_contents(self.lookup).dom().contains(key@),
                            lookup_in_range(index_map_contents(self.lookup), nf as int),
                            forall|t: int|
                                0 <= t < nf ==> #[trigger] field_results@[t] == if v@.subrange(0, j as int).contains(
                                    t as usize,
                                ) {
                                    Some(p)
                                } else {
                                    before[t]
                                },
                        decreases v.len() - j,
                    {
                        let fi = v[j];
                        proof {
                            assert(index_map_contents(self.lookup)[key@][j as int] == fi);
                        }
                        field_results.set(fi, Some(p));
                        proof {
                            assert forall|t: int| 0 <= t < nf implies #[trigger] field_results@[t] == if v@.subrange(
                                0,
                                j + 1,
                            ).contains(t as usize) {
                                Some(p)
                            } else {
                                before[t]
                            } by {
                                if v@.subrange(0, j as int).contains(t as usize) {
                                    let w = choose|w: int| 0 <= w < j && #[trigger] v@.subrange(0, j as int)[w] == t as usize;
                                    assert(v@.subrange(0, j + 1)[w] == t as usize);
                                }
                                if v@.subrange(0, j + 1).contains(t as usize) && t != fi {
                                    let w = choose|w: int| 0 <= w < j + 1 && #[trigger] v@.subrange(0, j + 1)[w] == t as usize;
                                    assert(v@.subrange(0, j as int)[w] == t as usize);
                                }
                                if t == fi {
                                    assert(v@.subrange(0, j + 1)[j as int] == t as usize);
                                }
                            }
                        }
                        j = j + 1;
                    }
                    proof {
                        assert(v@.subrange(0, v@.len() as int) =~= v@);
                        assert(keys@.subrange(0, p + 1).last() == keys@[p as int]);
                        assert forall|t: int| 0 <= t < nf implies #[trigger] field_results@[t] == self.json_field_pos(
                            keys@,
                            p + 1,
                            t,
                        ) by {}
                    }
                },
                None => {
                    self.push_extra_entry(&mut steps, key, p);
                    proof {
                        assert forall|t: int| 0 <= t < nf implies #[trigger] field_results@[t] == self.json_field_pos(
                            keys@,
                            p + 1,
                            t,
                        ) by {}
                    }
                },
            }
            p = p + 1;
        }
        proof {
            assert(keys@.subrange(0, keys@.len() as int) =~= keys@);
        }
        let ghost extra_steps = steps@;
        let mut i: usize = 0;
        while i < nf
            invariant
                i <= nf,
                nf == self.fields@.len(),
                p == keys.len(),
                field_results@.len() == nf,
                forall|j: int| 0 <= j < nf ==> #[trigger] field_results@[j] == self.json_field_pos(keys@, p as int, j),
                steps@ =~= extra_steps + Seq::new(
                    i as nat,
                    |t: int| self.json_field_step(self.fields@[t], t, self.json_field_pos(keys@, keys@.len() as int, t)),
                ),
            decreases nf - i,
        {
            let f = &self.fields[i];
            let step = match field_results[i] {
                Some(q) => Step::Fill {
                    source: Source::Keyword(q),
                    validator: Inner::Item(i),
                    target: Target::Dict(f.name.clone()),
                    loc: Some(LocItem::S(f.name.clone())),
                    on_line_errors: OnLineErrors::Collect,
                    skip_omit: true,
                    mark_set: true,
                },
                None => self.default_or_missing_step(f, i),
            };
            proof {
                assert(field_results@[i as int] == self.json_field_pos(keys@, p as int, i as int));
            }
            steps.push(step);
            i = i + 1;
        }
        steps
    }
}

} // verus!

verus! {

/// What the model-fields validator is given.
#[derive(Debug)]
pub enum ModelFieldsInput {
    /// A JSON object, with its keys in order.
    JsonObject { json_keys: Vec<String> },
    /// A JSON value that is not an object.
    JsonOther,
    /// A mapping (or an object read by its attributes, where `from_attributes`), with its keys.
    Mapping { keys: Vec<InputKey>, from_attributes: bool },
    /// An input that could not be read as a mapping, with the errors that reading it gave.
    NotMapping { errors: Vec<ValLineError> },
}

/// The errors of reading the input as a mapping, where each "not a dict" error reads as
/// "not an instance of the model" instead.
pub open spec fn model_type_errors(errors: Seq<ValLineError>, model_name: String) -> Seq<(ErrorType, Seq<LocItem>)> {
    Seq::new(
        errors.len(),
        |i: int|
            (
                if errors[i].error_type is DictType {
                    ErrorType::ModelType { class_name: model_name }
                } else {
                    errors[i].error_type
                },
                errors[i].loc@,
            ),
    )
}

/// Turns each "not a dict" error of `errors` into a "not an instance of `model_name`" error.
pub fn dict_type_as_model_type(errors: Vec<ValLineError>, model_name: &String) -> (r: Vec<ValLineError>)
    ensures
        errors_view(r@) == model_type_errors(errors@, *model_name),
{
    let ghost orig = errors@;
    let mut rest = errors;
    let mut out: Vec<ValLineError> = Vec::new();
    let ghost mut i: int = 0;
    while rest.len() > 0
        invariant
            0 <= i <= orig.len(),
            rest@ == orig.subrange(i, orig.len() as int),
            out@.len() == i,
            errors_view(out@) =~= model_type_errors(orig.subrange(0, i), *model_name),
        decreases rest.len(),
    {
        let e = rest.remove(0);
        proof {
            assert(e == orig[i]);
        }
        let ghost old_out = out@;
        let ne = match e.error_type {
            ErrorType::DictType => e.with_type(ErrorType::ModelType { class_name: model_name.clone() }),
            _ => e,
        };
        out.push(ne);
        proof {
            assert forall|k: int| 0 <= k < i implies #[trigger] errors_view(out@)[k] == errors_view(old_out)[k] by {
                assert(out@[k] == old_out[k]);
            }
            i = i + 1;
            assert(errors_view(out@) =~= model_type_errors(orig.subrange(0, i), *model_name));
        }
    }
    proof {
        assert(orig.subrange(0, orig.len() as int) =~= orig);
    }
    out
}

impl ModelFieldsValidator {
    /// The plan for `input` (none where the input is not read at all).
    pub open spec fn spec_plan(self, input: ModelFieldsInput) -> Seq<Step> {
        match input {
            ModelFieldsInput::JsonObject { json_keys } => self.spec_json_plan(json_keys@),
            ModelFieldsInput::Mapping { keys, from_attributes } => self.spec_mapping_plan(keys@, from_attributes),
            _ => Seq::empty(),
        }
    }

    /// The plan for `input`.
    pub fn plan(&self, input: &ModelFieldsInput) -> (r: Vec<Step>)
        requires
            self.wf(),
        ensures
            r@ == self.spec_plan(*input),
    {
        match input {
            ModelFieldsInput::JsonObject { json_keys } => self.plan_json(json_keys),
            ModelFieldsInput::Mapping { keys, from_attributes } => self.plan_mapping(keys, *from_attributes),
            _ => Vec::new(),
        }
    }

    /// Validates the fields of a model from `input`: the values that `plan` asks for are
    /// given by `outcomes`, in the order of the plan. A JSON value that is not an object,
    /// and an input that is not a mapping, are errors about the model's type. The output
    /// is the fields, the extra entries (kept where extras are allowed) and the names of
    /// the fields that were set; the validation fails with the gathered errors where there
    /// are any.
    pub fn validate<T>(&self, input: ModelFieldsInput, outcomes: Vec<Result<T, ValError>>) -> (r: Result<Gathered<T>, ValError>)
        requires
            self.wf(),
            outcomes.len() == self.spec_plan(input).len(),
        ensures
            match input {
                ModelFieldsInput::JsonOther => r matches Err(ValError::LineErrors(es)) && errors_view(es@) == seq![
                    (ErrorType::ModelType { class_name: self.model_name }, Seq::<LocItem>::empty()),
                ],
                ModelFieldsInput::NotMapping { errors } => r matches Err(ValError::LineErrors(es)) && errors_view(es@)
                    == model_type_errors(errors@, self.model_name),
                _ => finished(run_spec(self.spec_plan(input), outcomes@, outcomes.len() as int), r),
            },
    {
        let steps = self.plan(&input);
        match input {
            ModelFieldsInput::JsonOther => {
                let mut es: Vec<ValLineError> = Vec::new();
                es.push(ValLineError::new(ErrorType::ModelType { class_name: self.model_name.clone() }));
                proof {
                    assert(errors_view(es@) =~= seq![
                        (ErrorType::ModelType { class_name: self.model_name }, Seq::<LocItem>::empty()),
                    ]);
                }
                Err(ValError::LineErrors(es))
            },
            ModelFieldsInput::NotMapping { errors } => Err(ValError::LineErrors(dict_type_as_model_type(errors, &self.model_name))),
            _ => run_and_finish(steps, outcomes),
        }
    }
}

} // verus!

verus! {

/// What an assignment to an attribute of a model does.
#[derive(Debug)]
pub enum AssignmentAction {
    /// The value is validated by this inner validator.
    Validate(Inner),
    /// The value is stored as it is.
    Store,
    /// The assignment is refused with this error, located at the attribute.
    Reject(ErrorType),
}

/// The position of the first field named `name` among the first `n`, if any.
pub open spec fn field_named(fields: Seq<ModelField>, name: Seq<char>, n: int) -> Option<int>
    decreases n,
{
    if n <= 0 {
        None
    } else {
        match field_named(fields, name, n - 1) {
            Some(i) => Some(i),
            None => if fields[n - 1].name@ == name {
                Some(n - 1)
            } else {
                None
            },
        }
    }
}

impl ModelFieldsValidator {
    /// What assigning to the attribute `name` does: a frozen field refuses it, any other
    /// field validates the value; an attribute that is no field is validated as an extra
    /// (or stored as it is) where extras are allowed, and refused otherwise.
    pub open spec fn spec_assignment_action(self, name: Seq<char>, name_string: String) -> AssignmentAction {
        match field_named(self.fields@, name, self.fields@.len() as int) {
            Some(i) => if self.fields@[i].frozen {
                AssignmentAction::Reject(ErrorType::FrozenField)
            } else {
                AssignmentAction::Validate(Inner::Item(i as usize))
            },
            None => if self.extra_behavior == ExtraBehavior::Allow {
                if self.has_extras_validator {
                    AssignmentAction::Validate(Inner::Extras)
                } else {
                    AssignmentAction::Store
                }
            } else {
                AssignmentAction::Reject(ErrorType::NoSuchAttribute { attribute: name_string })
            },
        }
    }

    /// Assigning to an attribute is refused exactly where it names a frozen field, or names
    /// no field while extra attributes are not allowed (under `forbid` as under `ignore`),
    /// and then with `NoSuchAttribute` for that attribute; where extras are allowed, an
    /// attribute that is no field is kept.
    pub proof fn assignment_law(self, name: Seq<char>, name_string: String)
        ensures
            (self.spec_assignment_action(name, name_string) is Reject) == ((field_named(
                self.fields@,
                name,
                self.fields@.len() as int,
            ) matches Some(i) && self.fields@[i].frozen) || (field_named(self.fields@, name, self.fields@.len() as int)
                is None && self.extra_behavior != ExtraBehavior::Allow)),
            field_named(self.fields@, name, self.fields@.len() as int) is None && self.extra_behavior
                != ExtraBehavior::Allow ==> self.spec_assignment_action(name, name_string) == AssignmentAction::Reject(
                ErrorType::NoSuchAttribute { attribute: name_string },
            ),
            field_named(self.fields@, name, self.fields@.len() as int) matches Some(i) ==> (self.fields@[i].frozen
                ==> self.spec_assignment_action(name, name_string) == AssignmentAction::Reject(ErrorType::FrozenField)),
            field_named(self.fields@, name, self.fields@.len() as int) matches Some(i) ==> (!self.fields@[i].frozen
                ==> self.spec_assignment_action(name, name_string) == AssignmentAction::Validate(Inner::Item(i as usize))),
    {
    }

    /// Decides what assigning a value to the attribute `name` does.
    pub fn assignment_action(&self, name: &String) -> (r: AssignmentAction)
        ensures
            r == self.spec_assignment_action(name@, *name),
            field_named(self.fields@, name@, self.fields@.len() as int) is None && self.extra_behavior != ExtraBehavior::Allow
                ==> r == AssignmentAction::Reject(ErrorType::NoSuchAttribute { attribute: *name }),
            field_named(self.fields@, name@, self.fields@.len() as int) is None && self.extra_behavior == ExtraBehavior::Allow
                ==> !(r is Reject),
    {
        proof {
            self.assignment_law(name@, *name);
        }
        let n = self.fields.len();
        let mut i: usize = 0;
        while i < n
            invariant
                i <= n,
                n == self.fields@.len(),
                field_named(self.fields@, name@, i as int) is None,
            decreases n - i,
        {
            if crate::lookup::str_eq(self.fields[i].name.as_str(), name.as_str()) {
                proof {
                    lemma_field_named_stable(self.fields@, name@, i + 1, n as int);
                }
                if self.fields[i].frozen {
                    return AssignmentAction::Reject(ErrorType::FrozenField);
                } else {
                    return AssignmentAction::Validate(Inner::Item(i));
                }
            }
            i = i + 1;
        }
        if self.extra_behavior == ExtraBehavior::Allow {
            if self.has_extras_validator {
                AssignmentAction::Validate(Inner::Extras)
            } else {
                AssignmentAction::Store
            }
        } else {
            AssignmentAction::Reject(ErrorType::NoSuchAttribute { attribute: name.clone() })
        }
    }

    /// The result of assigning to the attribute `name`: refused with the error of `action`
    /// at the attribute; stored as it is (`None`); or the outcome of the validation, with
    /// its line errors located inside the attribute.
    pub fn assignment_result<T>(&self, name: &String, action: AssignmentAction, outcome: Option<Result<T, ValError>>) -> (r: Result<Option<T>, ValError>)
        requires
            action is Validate ==> outcome is Some,
        ensures
            match action {
                AssignmentAction::Reject(et) => r matches Err(ValError::LineErrors(es)) && errors_view(es@) == seq![
                    (et, seq![LocItem::S(*name)]),
                ] && crate::errors::inputs_view(es@) == seq![ErrorInput::Whole],
                AssignmentAction::Store => r matches Ok(None),
                AssignmentAction::Validate(_) => match outcome->Some_0 {
                    Ok(v) => r == Ok::<Option<T>, ValError>(Some(v)),
                    Err(ValError::LineErrors(es)) => r matches Err(ValError::LineErrors(es2)) && errors_view(es2@)
                        == crate::errors::errors_with_outer(es@, LocItem::S(*name)) && crate::errors::inputs_view(es2@)
                        == crate::errors::inputs_view(es@),
                    Err(e) => r == Err::<Option<T>, ValError>(e),
                },
            },
    {
        match action {
            AssignmentAction::Reject(et) => {
                let mut es: Vec<ValLineError> = Vec::new();
                es.push(ValLineError::new_with_loc(et, LocItem::S(name.clone())));
                proof {
                    assert(errors_view(es@) =~= seq![(et, seq![LocItem::S(*name)])]);
                    assert(crate::errors::inputs_view(es@) =~= seq![ErrorInput::Whole]);
                }
                Err(ValError::LineErrors(es))
            },
            AssignmentAction::Store => Ok(None),
            AssignmentAction::Validate(_) => match outcome {
                Some(Ok(v)) => Ok(Some(v)),
                Some(Err(ValError::LineErrors(es))) => Err(
                    ValError::LineErrors(crate::errors::prefix_errors(es, &LocItem::S(name.clone()))),
                ),
                Some(Err(e)) => Err(e),
                None => Ok(None),
            },
        }
    }

    /// Where extras are allowed, the model's data after an assignment is split in two:
    /// the positions (among `keys`, the data's keys) of the fields, in the order of the
    /// fields, and the positions of the other keys, in their order.
    pub open spec fn spec_split_data(self, keys: Seq<String>) -> (Seq<usize>, Seq<usize>) {
        (
            self.field_positions(keys, self.fields@.len() as int),
            other_positions(self.fields@, keys, keys.len() as int),
        )
    }

    /// The positions among `keys` of the first `n` fields that are there.
    pub open spec fn field_positions(self, keys: Seq<String>, n: int) -> Seq<usize>
        decreases n,
    {
        if n <= 0 {
            Seq::empty()
        } else {
            let before = self.field_positions(keys, n - 1);
            match first_string(keys, self.fields@[n - 1].name@, keys.len() as int) {
                Some(p) => before.push(p as usize),
                None => before,
            }
        }
    }
}

/// The first position of `s` among the first `n` of `keys`.
pub open spec fn first_string(keys: Seq<String>, s: Seq<char>, n: int) -> Option<int>
    decreases n,
{
    if n <= 0 {
        None
    } else {
        match first_string(keys, s, n - 1) {
            Some(p) => Some(p),
            None => if keys[n - 1]@ == s {
                Some(n - 1)
            } else {
                None
            },
        }
    }
}

/// The positions among the first `n` of `keys` whose key names no field.
pub open spec fn other_positions(fields: Seq<ModelField>, keys: Seq<String>, n: int) -> Seq<usize>
    decreases n,
{
    if n <= 0 {
        Seq::empty()
    } else {
        let before = other_positions(fields, keys, n - 1);
        if field_named(fields, keys[n - 1]@, fields.len() as int) is Some {
            before
        } else {
            before.push((n - 1) as usize)
        }
    }
}

proof fn lemma_field_named_stable(fields: Seq<ModelField>, name: Seq<char>, n: int, m: int)
    requires
        0 <= n <= m,
        field_named(fields, name, n) is Some,
    ensures
        field_named(fields, name, m) == field_named(fields, name, n),
    decreases m - n,
{
    if m > n {
        lemma_field_named_stable(fields, name, n, m - 1);
    }
}

proof fn lemma_first_string_stable(keys: Seq<String>, s: Seq<char>, n: int, m: int)
    requires
        0 <= n <= m,
        first_string(keys, s, n) is Some,
    ensures
        first_string(keys, s, m) == first_string(keys, s, n),
    decreases m - n,
{
    if m > n {
        lemma_first_string_stable(keys, s, n, m - 1);
    }
}

impl ModelFieldsValidator {
    fn find_string(keys: &Vec<String>, s: &String) -> (r: Option<usize>)
        ensures
            r matches Some(p) ==> first_string(keys@, s@, keys@.len() as int) == Some(p as int),
            r is None ==> first_string(keys@, s@, keys@.len() as int) is None,
    {
        let mut i: usize = 0;
        while i < keys.len()
            invariant
                i <= keys.len(),
                first_string(keys@, s@, i as int) is None,
            decreases keys.len() - i,
        {
            if crate::lookup::str_eq(keys[i].as_str(), s.as_str()) {
                proof {
                    lemma_first_string_stable(keys@, s@, i + 1, keys@.len() as int);
                }
                return Some(i);
            }
            i = i + 1;
        }
        None
    }

    fn names_field(&self, s: &String) -> (r: bool)
        ensures
            r == (field_named(self.fields@, s@, self.fields@.len() as int) is Some),
    {
        let n = self.fields.len();
        let mut i: usize = 0;
        while i < n
            invariant
                i <= n,
                n == self.fields@.len(),
                field_named(self.fields@, s@, i as int) is None,
            decreases n - i,
        {
            if crate::lookup::str_eq(self.fields[i].name.as_str(), s.as_str()) {
                proof {
                    lemma_field_named_stable(self.fields@, s@, i + 1, n as int);
                }
                return true;
            }
            i = i + 1;
        }
        false
    }

    /// Splits the model's data (with keys `keys`) after an assignment: the positions of
    /// the fields, in the order of the fields, and the positions of the other keys.
    pub fn split_data(&self, keys: &Vec<String>) -> (r: (Vec<usize>, Vec<usize>))
        ensures
            (r.0@, r.1@) == self.spec_split_data(keys@),
    {
        let mut fields_pos: Vec<usize> = Vec::new();
        let n = self.fields.len();
        let mut i: usize = 0;
        while i < n
            invariant
                i <= n,
                n == self.fields@.len(),
                fields_pos@ == self.field_positions(keys@, i as int),
            decreases n - i,
        {
            match Self::find_string(keys, &self.fields[i].name) {
                Some(p) => fields_pos.push(p),
                None => {},
            }
            i = i + 1;
        }
        let mut others: Vec<usize> = Vec::new();
        let mut p: usize = 0;
        while p < keys.len()
            invariant
                p <= keys.len(),
                others@ == other_positions(self.fields@, keys@, p as int),
            decreases keys.len() - p,
        {
            if !self.names_field(&keys[p]) {
                others.push(p);
            }
            p = p + 1;
        }
        (fields_pos, others)
    }
}

} // verus!

verus! {

/// Where extra entries are forbidden, the plan for a mapping holds an "extra forbidden"
/// failure for each key that no field takes.
proof fn lemma_forbidden_step(v: ModelFieldsValidator, keys: Seq<InputKey>, used: Set<Seq<char>>, p: int) -> (j: int)
    requires
        v.extra_behavior == ExtraBehavior::Forbid,
        0 <= p < keys.len(),
        keys[p] is Str,
        !used.contains(keys[p]->Str_0@),
    ensures
        0 <= j < v.mapping_extra_steps(keys, used).len(),
        v.mapping_extra_steps(keys, used)[j] == (Step::Fail {
            error_type: ErrorType::ExtraForbidden,
            loc: Some(LocItem::S(keys[p]->Str_0)),
            input: ErrorInput::Keyword(p as usize),
        }),
    decreases keys.len(),
{
    let before = v.mapping_extra_steps(keys.drop_last(), used);
    if p == keys.len() - 1 {
        before.len() as int
    } else {
        let j = lemma_forbidden_step(v, keys.drop_last(), used, p);
        j
    }
}

/// Where the model forbids extra entries, a mapping with a key that no field takes fails
/// to validate, whatever the fields' validators give.
pub proof fn forbidden_extra_key_fails<T>(
    v: ModelFieldsValidator,
    keys: Seq<InputKey>,
    p: int,
    outcomes: Seq<Result<T, ValError>>,
    out: Result<Gathered<T>, ValError>,
)
    requires
        v.extra_behavior == ExtraBehavior::Forbid,
        0 <= p < keys.len(),
        keys[p] is Str,
        !v.used_keys(v.fields@.len() as int, keys).contains(keys[p]->Str_0@),
        outcomes.len() == v.spec_mapping_plan(keys, false).len(),
        finished(run_spec(v.spec_mapping_plan(keys, false), outcomes, outcomes.len() as int), out),
    ensures
        out is Err,
{
    let n = v.fields@.len() as int;
    let j = lemma_forbidden_step(v, keys, v.used_keys(n, keys), p);
    let plan = v.spec_mapping_plan(keys, false);
    assert(plan[n + j] == v.mapping_extra_steps(keys, v.used_keys(n, keys))[j]);
    crate::plan::reported_error_fails(plan, outcomes, n + j, out);
}

/// A mapping that holds no value for a field that has no default fails to validate,
/// whatever the other fields' validators give.
pub proof fn missing_required_field_fails<T>(
    v: ModelFieldsValidator,
    keys: Seq<InputKey>,
    from_attributes: bool,
    i: int,
    outcomes: Seq<Result<T, ValError>>,
    out: Result<Gathered<T>, ValError>,
)
    requires
        0 <= i < v.fields@.len(),
        !v.fields@[i].has_default,
        lookup_spec(v.fields@[i].lookup_key, keys) is None,
        outcomes.len() == v.spec_mapping_plan(keys, from_attributes).len(),
        finished(run_spec(v.spec_mapping_plan(keys, from_attributes), outcomes, outcomes.len() as int), out),
    ensures
        out is Err,
{
    let plan = v.spec_mapping_plan(keys, from_attributes);
    assert(plan[i] == v.mapping_field_step(v.fields@[i], i, keys));
    crate::plan::reported_error_fails(plan, outcomes, i, out);
}

/// Of a JSON object with a key repeated, a field takes the value of the last entry whose
/// key it is looked up by: that entry's key is one of the field's, and no later key is.
pub proof fn json_field_takes_last_key(v: ModelFieldsValidator, keys: Seq<String>, n: int, i: int)
    requires
        0 <= n <= keys.len() <= usize::MAX,
        0 <= i < v.fields@.len(),
    ensures
        match v.json_field_pos(keys, n, i) {
            Some(p) => {
                &&& 0 <= p < n
                &&& index_map_contents(v.lookup).dom().contains(keys[p as int]@)
                &&& index_map_contents(v.lookup)[keys[p as int]@].contains(i as usize)
                &&& forall|q: int|
                    p < q < n ==> !(index_map_contents(v.lookup).dom().contains(#[trigger] keys[q]@)
                        && index_map_contents(v.lookup)[keys[q]@].contains(i as usize))
            },
            None => forall|q: int|
                0 <= q < n ==> !(index_map_contents(v.lookup).dom().contains(#[trigger] keys[q]@)
                    && index_map_contents(v.lookup)[keys[q]@].contains(i as usize)),
        },
    decreases n,
{
    if n > 0 {
        json_field_takes_last_key(v, keys, n - 1, i);
        let m = index_map_contents(v.lookup);
        if v.json_field_pos(keys, n, i) is None {
            assert forall|q: int| 0 <= q < n implies !(m.dom().contains(#[trigger] keys[q]@) && m[keys[q]@].contains(i as usize)) by {
                if q < n - 1 {
                } else {
                }
            }
        }
    }
}

} // verus!

verus! {

impl ModelFieldsValidator {
    /// The names of the first `n` fields that a mapping with keys `keys` gives a value for.
    pub open spec fn given_fields(self, keys: Seq<InputKey>, n: int) -> Seq<String>
        decreases n,
    {
        if n <= 0 {
            Seq::empty()
        } else {
            self.given_fields(keys, n - 1) + if lookup_spec(self.fields@[n - 1].lookup_key, keys) is Some {
                seq![self.fields@[n - 1].name]
            } else {
                Seq::empty()
            }
        }
    }

    /// The keys among `keys` that no field took (none is in `used`), where extra entries
    /// are kept.
    pub open spec fn kept_extras(self, keys: Seq<InputKey>, used: Set<Seq<char>>) -> Seq<String>
        decreases keys.len(),
    {
        if keys.len() == 0 {
            Seq::empty()
        } else {
            self.kept_extras(keys.drop_last(), used) + match keys.last() {
                InputKey::Str(s) => if !used.contains(s@) && self.extra_behavior == ExtraBehavior::Allow {
                    seq![s]
                } else {
                    Seq::empty()
                },
                InputKey::NotStr(_) => Seq::empty(),
            }
        }
    }
}

proof fn lemma_marked_field_steps(v: ModelFieldsValidator, keys: Seq<InputKey>, n: int)
    requires
        0 <= n <= v.fields@.len(),
    ensures
        crate::plan::marked_names(Seq::new(v.fields@.len(), |i: int| v.mapping_field_step(v.fields@[i], i, keys)), n)
            == v.given_fields(keys, n),
    decreases n,
{
    if n > 0 {
        lemma_marked_field_steps(v, keys, n - 1);
        let steps = Seq::new(v.fields@.len(), |i: int| v.mapping_field_step(v.fields@[i], i, keys));
        assert(steps[n - 1] == v.mapping_field_step(v.fields@[n - 1], n - 1, keys));
        assert(crate::plan::marked_names(steps, n) =~= v.given_fields(keys, n));
    }
}

proof fn lemma_marked_extra_steps(v: ModelFieldsValidator, keys: Seq<InputKey>, used: Set<Seq<char>>)
    ensures
        crate::plan::marked_names(v.mapping_extra_steps(keys, used), v.mapping_extra_steps(keys, used).len() as int)
            == v.kept_extras(keys, used),
    decreases keys.len(),
{
    if keys.len() > 0 {
        lemma_marked_extra_steps(v, keys.drop_last(), used);
        let before = v.mapping_extra_steps(keys.drop_last(), used);
        let tail: Seq<Step> = match keys.last() {
            InputKey::NotStr(l) => seq![
                Step::Fail {
                    error_type: ErrorType::InvalidKey,
                    loc: Some(l),
                    input: ErrorInput::Key((keys.len() - 1) as usize),
                },
            ],
            InputKey::Str(s) => if used.contains(s@) {
                Seq::empty()
            } else {
                v.extra_entry_steps(s, keys.len() - 1)
            },
        };
        assert(v.mapping_extra_steps(keys, used) =~= before + tail);
        crate::plan::marked_names_append(before, tail, tail.len() as int);
        assert(crate::plan::marked_names(tail, 0) == Seq::<String>::empty());
        match keys.last() {
            InputKey::Str(s) => {
                if !used.contains(s@) {
                    match v.extra_behavior {
                        ExtraBehavior::Allow => {
                            assert(tail.len() == 1);
                        },
                        ExtraBehavior::Forbid => {
                            assert(tail.len() == 1);
                        },
                        ExtraBehavior::Ignore => {
                            assert(tail.len() == 0);
                        },
                    }
                }
            },
            InputKey::NotStr(_) => {},
        }
        assert(crate::plan::marked_names(tail, tail.len() as int) =~= match keys.last() {
            InputKey::Str(s) => if !used.contains(s@) && v.extra_behavior == ExtraBehavior::Allow {
                seq![s]
            } else {
                Seq::<String>::empty()
            },
            InputKey::NotStr(_) => Seq::<String>::empty(),
        });
    }
}

/// Where every field's validator succeeds, a mapping validates (save for the errors the
/// plan itself finds), and the fields set are those the mapping gives a value for, in the
/// order of the fields, then the extra keys, in their order, where they are kept.
pub proof fn fields_set_are_given_fields<T>(
    v: ModelFieldsValidator,
    keys: Seq<InputKey>,
    from_attributes: bool,
    outcomes: Seq<Result<T, ValError>>,
)
    requires
        outcomes.len() == v.spec_mapping_plan(keys, from_attributes).len(),
        forall|k: int|
            0 <= k < outcomes.len() && (#[trigger] v.spec_mapping_plan(keys, from_attributes)[k]) is Fill ==> outcomes[k] is Ok,
    ensures
        run_spec(v.spec_mapping_plan(keys, from_attributes), outcomes, outcomes.len() as int) matches Ok(g) && g.fields_set
            == v.given_fields(keys, v.fields@.len() as int) + if v.checks_extra(from_attributes) {
            v.kept_extras(keys, v.used_keys(v.fields@.len() as int, keys))
        } else {
            Seq::empty()
        },
{
    let plan = v.spec_mapping_plan(keys, from_attributes);
    let nf = v.fields@.len() as int;
    let field_steps = Seq::new(v.fields@.len(), |i: int| v.mapping_field_step(v.fields@[i], i, keys));
    crate::plan::valid_values_mark_their_names(plan, outcomes, plan.len() as int);
    lemma_marked_field_steps(v, keys, nf);
    if v.checks_extra(from_attributes) {
        let extra = v.mapping_extra_steps(keys, v.used_keys(nf, keys));
        crate::plan::marked_names_append(field_steps, extra, extra.len() as int);
        lemma_marked_extra_steps(v, keys, v.used_keys(nf, keys));
    } else {
        assert(plan == field_steps);
        assert(v.given_fields(keys, nf) + Seq::<String>::empty() =~= v.given_fields(keys, nf));
    }
}

} // verus!

verus! {

/// The position of the first entry among the first `n` of `data` under the key `k`.
pub open spec fn key_pos<T>(data: Seq<(String, T)>, k: Seq<char>, n: int) -> Option<int>
    decreases n,
{
    if n <= 0 {
        None
    } else {
        match key_pos(data, k, n - 1) {
            Some(i) => Some(i),
            None => if data[n - 1].0@ == k {
                Some(n - 1)
            } else {
                None
            },
        }
    }
}

proof fn lemma_key_pos_stays<T>(data: Seq<(String, T)>, k: Seq<char>, n: int, m: int)
    requires
        0 <= n <= m,
        key_pos(data, k, n) is Some,
    ensures
        key_pos(data, k, m) == key_pos(data, k, n),
    decreases m - n,
{
    if m > n {
        lemma_key_pos_stays(data, k, n, m - 1);
    }
}

proof fn lemma_key_pos_range<T>(data: Seq<(String, T)>, k: Seq<char>, n: int)
    ensures
        key_pos(data, k, n) matches Some(i) ==> 0 <= i < n,
    decreases n,
{
    if n > 0 {
        lemma_key_pos_range(data, k, n - 1);
    }
}

/// The entries `data` with the value under `k` set to `v`: in place where `k` is there
/// (the first entry under it), else added at the end.
pub open spec fn set_item<T>(data: Seq<(String, T)>, k: String, v: T) -> Seq<(String, T)> {
    match key_pos(data, k@, data.len() as int) {
        Some(i) => data.update(i, (data[i].0, v)),
        None => data.push((k, v)),
    }
}

/// What an assignment to an attribute of a model gives: the model's data afterwards, and
/// the fields that it sets.
#[derive(Debug)]
pub struct Assigned<T> {
    pub data: Vec<(String, T)>,
    pub fields_set: Vec<String>,
}

/// `data` with the value under `k` set to `v` (see `set_item`).
fn set_entry<T>(entries: Vec<(String, T)>, k: &String, v: T) -> (r: Vec<(String, T)>)
    ensures
        r@ == set_item(entries@, *k, v),
{
    let ghost orig = entries@;
    let mut data = entries;
    let n = data.len();
    let mut i: usize = 0;
    while i < n
        invariant
            i <= n,
            data@ == orig,
            orig == entries@,
            n == data@.len(),
            key_pos(data@, k@, i as int) is None,
        decreases n - i,
    {
        if crate::lookup::str_eq(data[i].0.as_str(), k.as_str()) {
            proof {
                assert(key_pos(data@, k@, i + 1) == Some(i as int));
                lemma_key_pos_stays(data@, k@, i + 1, n as int);
            }
            let key = data[i].0.clone();
            proof {
                assert(key == orig[i as int].0);
                assert(set_item(orig, *k, v) == orig.update(i as int, (orig[i as int].0, v)));
            }
            data.set(i, (key, v));
            proof {
                assert(data@ =~= orig.update(i as int, (orig[i as int].0, v)));
            }
            return data;
        }
        i = i + 1;
    }
    let kc = k.clone();
    proof {
        assert(kc == *k);
    }
    data.push((kc, v));
    data
}

impl ModelFieldsValidator {
    /// Assigns `value` to the attribute `name` of a model whose data is `data`, as
    /// `assignment_action` decides: a frozen field, or an attribute that is no field where
    /// extras are not allowed, refuses it (the error located at the attribute); otherwise
    /// the value (validated where the action says so: `outcome` is that validation's) is
    /// set under `name` and the fields set are exactly `name`. A failed validation gives its
    /// errors, located inside the attribute, and the data is not changed.
    pub fn validate_assignment<T>(
        &self,
        data: Vec<(String, T)>,
        name: &String,
        value: T,
        outcome: Option<Result<T, ValError>>,
    ) -> (r: Result<Assigned<T>, ValError>)
        requires
            self.spec_assignment_action(name@, *name) is Validate ==> outcome is Some,
        ensures
            field_named(self.fields@, name@, self.fields@.len() as int) is None && self.extra_behavior != ExtraBehavior::Allow
                ==> (r matches Err(ValError::LineErrors(es)) && errors_view(es@) == seq![
                (ErrorType::NoSuchAttribute { attribute: *name }, seq![LocItem::S(*name)]),
            ]),
            match self.spec_assignment_action(name@, *name) {
                AssignmentAction::Reject(et) => r matches Err(ValError::LineErrors(es)) && errors_view(es@) == seq![
                    (et, seq![LocItem::S(*name)]),
                ] && crate::errors::inputs_view(es@) == seq![ErrorInput::Whole],
                AssignmentAction::Store => r matches Ok(a) && a.data@ == set_item(data@, *name, value) && a.fields_set@
                    == seq![*name],
                AssignmentAction::Validate(_) => match outcome->Some_0 {
                    Ok(v) => r matches Ok(a) && a.data@ == set_item(data@, *name, v) && a.fields_set@ == seq![*name],
                    Err(ValError::LineErrors(es)) => r matches Err(ValError::LineErrors(es2)) && errors_view(es2@)
                        == crate::errors::errors_with_outer(es@, LocItem::S(*name)) && crate::errors::inputs_view(es2@)
                        == crate::errors::inputs_view(es@),
                    Err(e) => r == Err::<Assigned<T>, ValError>(e),
                },
            },
    {
        proof {
            self.assignment_law(name@, *name);
        }
        let action = self.assignment_action(name);
        let stored = match self.assignment_result(name, action, outcome) {
            Ok(Some(v)) => v,
            Ok(None) => value,
            Err(e) => {
                return Err(e);
            },
        };
        let mut fields_set: Vec<String> = Vec::new();
        fields_set.push(name.clone());
        proof {
            assert(fields_set@ =~= seq![*name]);
        }
        Ok(Assigned { data: set_entry(data, name, stored), fields_set })
    }
}

} // verus!

verus! {

proof fn lemma_key_pos_facts<T>(data: Seq<(String, T)>, k: Seq<char>, n: int)
    requires
        0 <= n <= data.len(),
    ensures
        key_pos(data, k, n) matches Some(i) ==> 0 <= i < n && data[i].0@ == k && forall|j: int|
            0 <= j < i ==> (#[trigger] data[j]).0@ != k,
        key_pos(data, k, n) is None ==> forall|j: int| 0 <= j < n ==> (#[trigger] data[j]).0@ != k,
    decreases n,
{
    if n > 0 {
        lemma_key_pos_facts(data, k, n - 1);
    }
}

proof fn lemma_key_pos_prefix<T>(a: Seq<(String, T)>, b: Seq<(String, T)>, k: Seq<char>, n: int)
    requires
        0 <= n <= b.len(),
        b.len() <= a.len(),
        forall|j: int| 0 <= j < n ==> #[trigger] a[j].0 == b[j].0,
    ensures
        key_pos(a, k, n) == key_pos(b, k, n),
    decreases n,
{
    if n > 0 {
        lemma_key_pos_prefix(a, b, k, n - 1);
    }
}

/// Assigning a value under a key leaves every entry under another key as it was, and
/// afterwards the key's (first) entry holds the value.
pub proof fn assignment_changes_only_its_entry<T>(data: Seq<(String, T)>, k: String, v: T)
    ensures
        ({
            let after = set_item(data, k, v);
            &&& data.len() <= after.len() <= data.len() + 1
            &&& forall|j: int| 0 <= j < data.len() && (#[trigger] data[j]).0@ != k@ ==> after[j] == data[j]
            &&& key_pos(after, k@, after.len() as int) matches Some(p) && after[p].1 == v
        }),
{
    let after = set_item(data, k, v);
    lemma_key_pos_facts(data, k@, data.len() as int);
    match key_pos(data, k@, data.len() as int) {
        Some(i) => {
            lemma_key_pos_prefix(after, data, k@, data.len() as int);
        },
        None => {
            lemma_key_pos_prefix(after, data, k@, data.len() as int);
            assert(after[data.len() as int].0@ == k@);
            assert(key_pos(after, k@, after.len() as int) == Some(data.len() as int));
        },
    }
}

} // verus!
