//! The core-schema walker: the filters of its visitors (which schemas a visitor is called
//! on: those with a `ref`, those of a type, those a Python predicate accepts, and the
//! `and` and `or` of filters), and which parts of each type of schema it walks.
use vstd::prelude::*;
use crate::lookup::str_eq;

verus! {

#[derive(Debug)]
pub enum Filter {
    HasRef,
    HasType { type_: String },
    /// The Python predicate with this index.
    Python { predicate: usize },
    And { left: Box<Filter>, right: Box<Filter> },
    Or { left: Box<Filter>, right: Box<Filter> },
}

/// What the filters read of a schema: whether it has a `ref`, its `type` (`Ok(None)`
/// where it has none, an error where it is not a string), and what each predicate says
/// of it (or the error it raised).
#[derive(Debug)]
pub struct SchemaFacts {
    pub has_ref: bool,
    pub schema_type: Result<Option<String>, String>,
    pub predicates: Vec<Result<bool, String>>,
}

/// Whether `f` matches the schema, or the first error met (the right side of `and` is
/// not looked at where the left side fails to match, nor that of `or` where it matches).
pub open spec fn spec_matches(f: Filter, s: SchemaFacts) -> Result<bool, Seq<char>>
    decreases f,
{
    match f {
        Filter::HasRef => Ok(s.has_ref),
        Filter::HasType { type_ } => match s.schema_type {
            Ok(Some(t)) => Ok(t@ == type_@),
            Ok(None) => Ok(false),
            Err(e) => Err(e@),
        },
        Filter::Python { predicate } => if predicate < s.predicates@.len() {
            match s.predicates@[predicate as int] {
                Ok(b) => Ok(b),
                Err(e) => Err(e@),
            }
        } else {
            Err(Seq::empty())
        },
        Filter::And { left, right } => match spec_matches(*left, s) {
            Ok(true) => spec_matches(*right, s),
            other => other,
        },
        Filter::Or { left, right } => match spec_matches(*left, s) {
            Ok(false) => spec_matches(*right, s),
            other => other,
        },
    }
}

/// Every predicate that `f` names is one of those given.
pub open spec fn predicates_below(f: Filter, n: int) -> bool
    decreases f,
{
    match f {
        Filter::Python { predicate } => predicate < n,
        Filter::And { left, right } => predicates_below(*left, n) && predicates_below(*right, n),
        Filter::Or { left, right } => predicates_below(*left, n) && predicates_below(*right, n),
        _ => true,
    }
}

pub open spec fn result_view(r: Result<bool, String>) -> Result<bool, Seq<char>> {
    match r {
        Ok(b) => Ok(b),
        Err(e) => Err(e@),
    }
}

impl Filter {
    /// Whether the filter matches the schema whose facts are `s`.
    pub fn matches(&self, s: &SchemaFacts) -> (r: Result<bool, String>)
        requires
            predicates_below(*self, s.predicates@.len() as int),
        ensures
            result_view(r) == spec_matches(*self, *s),
        decreases self,
    {
        match self {
            Filter::HasRef => Ok(s.has_ref),
            Filter::HasType { type_ } => match &s.schema_type {
                Ok(Some(t)) => Ok(str_eq(t.as_str(), type_.as_str())),
                Ok(None) => Ok(false),
                Err(e) => Err(e.clone()),
            },
            Filter::Python { predicate } => match &s.predicates[*predicate] {
                Ok(b) => Ok(*b),
                Err(e) => Err(e.clone()),
            },
            Filter::And { left, right } => match left.matches(s) {
                Ok(true) => right.matches(s),
                other => other,
            },
            Filter::Or { left, right } => match left.matches(s) {
                Ok(false) => right.matches(s),
                other => other,
            },
        }
    }
}

/// Builds the filters of the walker's visitors.
#[derive(Debug)]
pub struct WalkCoreSchemaFilterBuilder {
    pub filter: Filter,
}

impl WalkCoreSchemaFilterBuilder {
    /// The filter of schemas with a `ref`.
    pub fn has_ref() -> (r: Self)
        ensures
            r.filter == Filter::HasRef,
    {
        WalkCoreSchemaFilterBuilder { filter: Filter::HasRef }
    }

    /// The filter of schemas of the type `type_`.
    pub fn has_type(type_: String) -> (r: Self)
        ensures
            r.filter == (Filter::HasType { type_ }),
    {
        WalkCoreSchemaFilterBuilder { filter: Filter::HasType { type_ } }
    }

    /// The filter of schemas that the Python predicate with index `predicate` accepts.
    pub fn predicate(predicate: usize) -> (r: Self)
        ensures
            r.filter == (Filter::Python { predicate }),
    {
        WalkCoreSchemaFilterBuilder { filter: Filter::Python { predicate } }
    }

    /// Both filters.
    pub fn and(self, other: Self) -> (r: Self)
        ensures
            r.filter == (Filter::And { left: Box::new(self.filter), right: Box::new(other.filter) }),
    {
        WalkCoreSchemaFilterBuilder { filter: Filter::And { left: Box::new(self.filter), right: Box::new(other.filter) } }
    }

    /// Either filter.
    pub fn or(self, other: Self) -> (r: Self)
        ensures
            r.filter == (Filter::Or { left: Box::new(self.filter), right: Box::new(other.filter) }),
    {
        WalkCoreSchemaFilterBuilder { filter: Filter::Or { left: Box::new(self.filter), right: Box::new(other.filter) } }
    }

    /// The filter built.
    pub fn build(self) -> (r: Filter)
        ensures
            r == self.filter,
    {
        self.filter
    }
}

/// The core-schema walker, with the filters of its visitors of core schemas and of
/// serialization schemas (where it has them).
#[derive(Debug)]
pub struct WalkCoreSchema {
    pub visit_core_schema: Option<Filter>,
    pub visit_ser_schema: Option<Filter>,
}

impl WalkCoreSchema {
    pub fn new(visit_core_schema: Option<Filter>, visit_ser_schema: Option<Filter>) -> (r: Self)
        ensures
            r.visit_core_schema == visit_core_schema,
            r.visit_ser_schema == visit_ser_schema,
    {
        WalkCoreSchema { visit_core_schema, visit_ser_schema }
    }

    /// What the walker does with a core schema whose facts are `s` (see `walk_action`).
    pub fn walk(&self, s: &SchemaFacts) -> (r: Result<WalkAction, String>)
        requires
            self.visit_core_schema matches Some(f) ==> predicates_below(f, s.predicates@.len() as int),
        ensures
            action_view(r) == spec_walk_action(self.visit_core_schema, *s),
    {
        let v = match &self.visit_core_schema {
            Some(f) => Some(f),
            None => None,
        };
        walk_action(v, s)
    }

    /// What the walker does with the serialization schema of a schema, where it has one
    /// (whose facts are `ser`).
    pub fn check_ser_schema(&self, ser: Option<&SchemaFacts>) -> (r: Result<Option<WalkAction>, String>)
        requires
            ser matches Some(s) ==> (self.visit_ser_schema matches Some(f) ==> predicates_below(f, s.predicates@.len() as int)),
        ensures
            match ser {
                None => r == Ok::<Option<WalkAction>, String>(None),
                Some(s) => match spec_walk_action(self.visit_ser_schema, *s) {
                    Ok(a) => r == Ok::<Option<WalkAction>, String>(Some(a)),
                    Err(e) => r matches Err(m) && m@ == e,
                },
            },
    {
        match ser {
            None => Ok(None),
            Some(s) => {
                let v = match &self.visit_ser_schema {
                    Some(f) => Some(f),
                    None => None,
                };
                match walk_action(v, s) {
                    Ok(a) => Ok(Some(a)),
                    Err(e) => Err(e),
                }
            },
        }
    }
}

/// What the walker does with a schema whose facts are `s`, given its visitor's filter
/// (where it has a visitor): calls the visitor where the filter matches, else walks the
/// schema's parts; an error of the filter stops the walk.
pub open spec fn spec_walk_action(visitor: Option<Filter>, s: SchemaFacts) -> Result<WalkAction, Seq<char>> {
    match visitor {
        None => Ok(WalkAction::WalkParts),
        Some(f) => match spec_matches(f, s) {
            Ok(true) => Ok(WalkAction::Visit),
            Ok(false) => Ok(WalkAction::WalkParts),
            Err(e) => Err(e),
        },
    }
}

/// `r`, with an error taken as plain text.
pub open spec fn action_view(r: Result<WalkAction, String>) -> Result<WalkAction, Seq<char>> {
    match r {
        Ok(a) => Ok(a),
        Err(e) => Err(e@),
    }
}

/// What the walker does with a schema: calls the visitor (where its filter matches),
/// or walks the schema's parts itself.
#[derive(Debug, PartialEq, Eq, Structural, Clone, Copy)]
pub enum WalkAction {
    Visit,
    WalkParts,
}

/// Decides what the walker does with a schema whose facts are `s`, given its visitor's
/// filter (where it has a visitor).
pub fn walk_action(visitor: Option<&Filter>, s: &SchemaFacts) -> (r: Result<WalkAction, String>)
    requires
        visitor matches Some(f) ==> predicates_below(*f, s.predicates@.len() as int),
    ensures
        action_view(r) == spec_walk_action(
            match visitor {
                Some(f) => Some(*f),
                None => None,
            },
            *s,
        ),
{
    match visitor {
        None => Ok(WalkAction::WalkParts),
        Some(f) => match f.matches(s) {
            Ok(true) => Ok(WalkAction::Visit),
            Ok(false) => Ok(WalkAction::WalkParts),
            Err(e) => Err(e),
        },
    }
}

} // verus!

verus! {

/// A key of a schema under which the walker finds schemas to walk.
#[derive(Debug, PartialEq, Eq, Structural, Clone, Copy)]
pub enum SchemaKey {
    Schema,
    ItemsSchema,
    KeysSchema,
    ValuesSchema,
    ExtrasSchema,
    Choices,
    Steps,
    LaxSchema,
    StrictSchema,
    JsonSchema,
    PythonSchema,
    Fields,
    ArgumentsSchema,
    ReturnSchema,
    Definitions,
}

/// The name of a key in a schema.
pub open spec fn key_name(k: SchemaKey) -> Seq<char> {
    match k {
        SchemaKey::Schema => "schema"@,
        SchemaKey::ItemsSchema => "items_schema"@,
        SchemaKey::KeysSchema => "keys_schema"@,
        SchemaKey::ValuesSchema => "values_schema"@,
        SchemaKey::ExtrasSchema => "extras_schema"@,
        SchemaKey::Choices => "choices"@,
        SchemaKey::Steps => "steps"@,
        SchemaKey::LaxSchema => "lax_schema"@,
        SchemaKey::StrictSchema => "strict_schema"@,
        SchemaKey::JsonSchema => "json_schema"@,
        SchemaKey::PythonSchema => "python_schema"@,
        SchemaKey::Fields => "fields"@,
        SchemaKey::ArgumentsSchema => "arguments_schema"@,
        SchemaKey::ReturnSchema => "return_schema"@,
        SchemaKey::Definitions => "definitions"@,
    }
}

impl SchemaKey {
    /// The key's name in a schema.
    pub fn name(&self) -> (r: &'static str)
        ensures
            r@ == key_name(*self),
    {
        match self {
            SchemaKey::Schema => "schema",
            SchemaKey::ItemsSchema => "items_schema",
            SchemaKey::KeysSchema => "keys_schema",
            SchemaKey::ValuesSchema => "values_schema",
            SchemaKey::ExtrasSchema => "extras_schema",
            SchemaKey::Choices => "choices",
            SchemaKey::Steps => "steps",
            SchemaKey::LaxSchema => "lax_schema",
            SchemaKey::StrictSchema => "strict_schema",
            SchemaKey::JsonSchema => "json_schema",
            SchemaKey::PythonSchema => "python_schema",
            SchemaKey::Fields => "fields",
            SchemaKey::ArgumentsSchema => "arguments_schema",
            SchemaKey::ReturnSchema => "return_schema",
            SchemaKey::Definitions => "definitions",
        }
    }
}

/// One step of walking a schema: the schemas it reaches, each of which is walked in turn
/// (and replaced by what the walk gives), where the key is there.
#[derive(Debug, PartialEq, Eq, Structural, Clone, Copy)]
pub enum WalkStep {
    /// The schema under the key.
    Inner(SchemaKey),
    /// Each schema of the list under the key.
    EachInList(SchemaKey),
    /// Each value of the mapping under the key.
    EachInDict(SchemaKey),
    /// Each choice of a union: a schema, or a schema with its tag.
    UnionChoices,
    /// The `schema` of each field of the mapping under the key (a field without one is an error).
    EachFieldInDict(SchemaKey),
    /// The `schema` of each field of the list under the key.
    EachFieldInList(SchemaKey),
    /// The `schema` and `return_schema` of each computed field.
    ComputedFields,
    /// The serialization schema, where there is one (through the serialization visitor).
    SerSchema,
}

/// The steps of walking a core schema of the type `t`, in order, or `None` for an
/// unknown type.
pub open spec fn core_walk_steps(t: Seq<char>) -> Option<Seq<WalkStep>> {
    if t == "any"@ || t == "none"@ || t == "bool"@ || t == "int"@ || t == "float"@ || t == "decimal"@ || t == "str"@ || t == "bytes"@ || t == "date"@ || t == "time"@ || t == "datetime"@ || t == "timedelta"@ || t == "literal"@ || t == "is-instance"@ || t == "is-subclass"@ || t == "callable"@ || t == "function-plain"@ || t == "url"@ || t == "multi-host-url"@ || t == "definition-ref"@ || t == "uuid"@ {
        Some(seq![WalkStep::SerSchema])
    } else if t == "list"@ || t == "tuple-variable"@ || t == "set"@ || t == "frozenset"@ || t == "generator"@ {
        Some(seq![WalkStep::Inner(SchemaKey::ItemsSchema), WalkStep::SerSchema])
    } else if t == "tuple-positional"@ {
        Some(seq![WalkStep::EachInList(SchemaKey::ItemsSchema), WalkStep::Inner(SchemaKey::ExtrasSchema), WalkStep::SerSchema])
    } else if t == "dict"@ {
        Some(seq![WalkStep::Inner(SchemaKey::KeysSchema), WalkStep::Inner(SchemaKey::ValuesSchema), WalkStep::SerSchema])
    } else if t == "function-after"@ || t == "function-before"@ || t == "function-wrap"@ || t == "default"@ || t == "nullable"@ || t == "model-field"@ || t == "model"@ || t == "dataclass"@ || t == "custom-error"@ || t == "json"@ {
        Some(seq![WalkStep::Inner(SchemaKey::Schema), WalkStep::SerSchema])
    } else if t == "union"@ {
        Some(seq![WalkStep::UnionChoices, WalkStep::SerSchema])
    } else if t == "tagged-union"@ {
        Some(seq![WalkStep::EachInDict(SchemaKey::Choices), WalkStep::SerSchema])
    } else if t == "chain"@ {
        Some(seq![WalkStep::EachInList(SchemaKey::Steps), WalkStep::SerSchema])
    } else if t == "lax-or-strict"@ {
        Some(seq![WalkStep::Inner(SchemaKey::LaxSchema), WalkStep::Inner(SchemaKey::StrictSchema), WalkStep::SerSchema])
    } else if t == "json-or-python"@ {
        Some(seq![WalkStep::Inner(SchemaKey::JsonSchema), WalkStep::Inner(SchemaKey::PythonSchema), WalkStep::SerSchema])
    } else if t == "typed-dict"@ {
        Some(seq![WalkStep::EachFieldInDict(SchemaKey::Fields), WalkStep::Inner(SchemaKey::ExtrasSchema), WalkStep::ComputedFields, WalkStep::SerSchema])
    } else if t == "model-fields"@ {
        Some(seq![WalkStep::EachInDict(SchemaKey::Fields), WalkStep::Inner(SchemaKey::ExtrasSchema), WalkStep::ComputedFields, WalkStep::SerSchema])
    } else if t == "dataclass-args"@ {
        Some(seq![WalkStep::EachFieldInList(SchemaKey::Fields), WalkStep::ComputedFields, WalkStep::SerSchema])
    } else if t == "arguments"@ {
        Some(seq![WalkStep::EachFieldInList(SchemaKey::ArgumentsSchema), WalkStep::SerSchema])
    } else if t == "call"@ {
        Some(seq![WalkStep::Inner(SchemaKey::ArgumentsSchema), WalkStep::Inner(SchemaKey::ReturnSchema), WalkStep::SerSchema])
    } else if t == "definitions"@ {
        Some(seq![WalkStep::EachInList(SchemaKey::Definitions), WalkStep::Inner(SchemaKey::Schema), WalkStep::SerSchema])
    } else {
        None
    }
}

/// The steps of walking a serialization schema of the type `t`, in order, or `None` for
/// an unknown type.
pub open spec fn ser_walk_steps(t: Seq<char>) -> Option<Seq<WalkStep>> {
    if t == "none"@ || t == "int"@ || t == "bool"@ || t == "float"@ || t == "str"@ || t == "bytes"@ || t == "bytearray"@ || t == "list"@ || t == "tuple"@ || t == "set"@ || t == "frozenset"@ || t == "generator"@ || t == "dict"@ || t == "datetime"@ || t == "date"@ || t == "time"@ || t == "timedelta"@ || t == "url"@ || t == "multi-host-url"@ || t == "json"@ || t == "uuid"@ || t == "format"@ || t == "to-string"@ {
        Some(Seq::empty())
    } else if t == "function-plain"@ {
        Some(seq![WalkStep::Inner(SchemaKey::ReturnSchema)])
    } else if t == "function-wrap"@ {
        Some(seq![WalkStep::Inner(SchemaKey::Schema), WalkStep::Inner(SchemaKey::ReturnSchema)])
    } else if t == "model"@ {
        Some(seq![WalkStep::Inner(SchemaKey::Schema)])
    } else {
        None
    }
}

/// The steps of walking a core schema of the type `t`, or the error of an unknown type.
pub fn core_schema_walk_steps(t: &str) -> (r: Result<Vec<WalkStep>, String>)
    ensures
        match core_walk_steps(t@) {
            Some(steps) => r matches Ok(v) && v@ == steps,
            None => r matches Err(m) && m@ == "Unknown schema type: "@ + t@,
        },
{
    let mut v: Vec<WalkStep> = Vec::new();
    if str_eq(t, "any") || str_eq(t, "none") || str_eq(t, "bool") || str_eq(t, "int") || str_eq(t, "float") || str_eq(t, "decimal") || str_eq(t, "str") || str_eq(t, "bytes") || str_eq(t, "date") || str_eq(t, "time") || str_eq(t, "datetime") || str_eq(t, "timedelta") || str_eq(t, "literal") || str_eq(t, "is-instance") || str_eq(t, "is-subclass") || str_eq(t, "callable") || str_eq(t, "function-plain") || str_eq(t, "url") || str_eq(t, "multi-host-url") || str_eq(t, "definition-ref") || str_eq(t, "uuid") {
        v.push(WalkStep::SerSchema);
    } else if str_eq(t, "list") || str_eq(t, "tuple-variable") || str_eq(t, "set") || str_eq(t, "frozenset") || str_eq(t, "generator") {
        v.push(WalkStep::Inner(SchemaKey::ItemsSchema));
        v.push(WalkStep::SerSchema);
    } else if str_eq(t, "tuple-positional") {
        v.push(WalkStep::EachInList(SchemaKey::ItemsSchema));
        v.push(WalkStep::Inner(SchemaKey::ExtrasSchema));
        v.push(WalkStep::SerSchema);
    } else if str_eq(t, "dict") {
        v.push(WalkStep::Inner(SchemaKey::KeysSchema));
        v.push(WalkStep::Inner(SchemaKey::ValuesSchema));
        v.push(WalkStep::SerSchema);
    } else if str_eq(t, "function-after") || str_eq(t, "function-before") || str_eq(t, "function-wrap") || str_eq(t, "default") || str_eq(t, "nullable") || str_eq(t, "model-field") || str_eq(t, "model") || str_eq(t, "dataclass") || str_eq(t, "custom-error") || str_eq(t, "json") {
        v.push(WalkStep::Inner(SchemaKey::Schema));
        v.push(WalkStep::SerSchema);
    } else if str_eq(t, "union") {
        v.push(WalkStep::UnionChoices);
        v.push(WalkStep::SerSchema);
    } else if str_eq(t, "tagged-union") {
        v.push(WalkStep::EachInDict(SchemaKey::Choices));
        v.push(WalkStep::SerSchema);
    } else if str_eq(t, "chain") {
        v.push(WalkStep::EachInList(SchemaKey::Steps));
        v.push(WalkStep::SerSchema);
    } else if str_eq(t, "lax-or-strict") {
        v.push(WalkStep::Inner(SchemaKey::LaxSchema));
        v.push(WalkStep::Inner(SchemaKey::StrictSchema));
        v.push(WalkStep::SerSchema);
    } else if str_eq(t, "json-or-python") {
        v.push(WalkStep::Inner(SchemaKey::JsonSchema));
        v.push(WalkStep::Inner(SchemaKey::PythonSchema));
        v.push(WalkStep::SerSchema);
    } else if str_eq(t, "typed-dict") {
        v.push(WalkStep::EachFieldInDict(SchemaKey::Fields));
        v.push(WalkStep::Inner(SchemaKey::ExtrasSchema));
        v.push(WalkStep::ComputedFields);
        v.push(WalkStep::SerSchema);
    } else if str_eq(t, "model-fields") {
        v.push(WalkStep::EachInDict(SchemaKey::Fields));
        v.push(WalkStep::Inner(SchemaKey::ExtrasSchema));
        v.push(WalkStep::ComputedFields);
        v.push(WalkStep::SerSchema);
    } else if str_eq(t, "dataclass-args") {
        v.push(WalkStep::EachFieldInList(SchemaKey::Fields));
        v.push(WalkStep::ComputedFields);
        v.push(WalkStep::SerSchema);
    } else if str_eq(t, "arguments") {
        v.push(WalkStep::EachFieldInList(SchemaKey::ArgumentsSchema));
        v.push(WalkStep::SerSchema);
    } else if str_eq(t, "call") {
        v.push(WalkStep::Inner(SchemaKey::ArgumentsSchema));
        v.push(WalkStep::Inner(SchemaKey::ReturnSchema));
        v.push(WalkStep::SerSchema);
    } else if str_eq(t, "definitions") {
        v.push(WalkStep::EachInList(SchemaKey::Definitions));
        v.push(WalkStep::Inner(SchemaKey::Schema));
        v.push(WalkStep::SerSchema);
    } else {
        let mut m = String::from_str("Unknown schema type: ");
        m.append(t);
        return Err(m);
    }
    proof {
        assert(v@ =~= core_walk_steps(t@)->Some_0);
    }
    Ok(v)
}

/// The steps of walking a serialization schema of the type `t`, or the error of an
/// unknown type.
pub fn ser_schema_walk_steps(t: &str) -> (r: Result<Vec<WalkStep>, String>)
    ensures
        match ser_walk_steps(t@) {
            Some(steps) => r matches Ok(v) && v@ == steps,
            None => r matches Err(m) && m@ == "Unknown ser schema type: "@ + t@,
        },
{
    let mut v: Vec<WalkStep> = Vec::new();
    if str_eq(t, "none") || str_eq(t, "int") || str_eq(t, "bool") || str_eq(t, "float") || str_eq(t, "str") || str_eq(t, "bytes") || str_eq(t, "bytearray") || str_eq(t, "list") || str_eq(t, "tuple") || str_eq(t, "set") || str_eq(t, "frozenset") || str_eq(t, "generator") || str_eq(t, "dict") || str_eq(t, "datetime") || str_eq(t, "date") || str_eq(t, "time") || str_eq(t, "timedelta") || str_eq(t, "url") || str_eq(t, "multi-host-url") || str_eq(t, "json") || str_eq(t, "uuid") || str_eq(t, "format") || str_eq(t, "to-string") {
    } else if str_eq(t, "function-plain") {
        v.push(WalkStep::Inner(SchemaKey::ReturnSchema));
    } else if str_eq(t, "function-wrap") {
        v.push(WalkStep::Inner(SchemaKey::Schema));
        v.push(WalkStep::Inner(SchemaKey::ReturnSchema));
    } else if str_eq(t, "model") {
        v.push(WalkStep::Inner(SchemaKey::Schema));
    } else {
        let mut m = String::from_str("Unknown ser schema type: ");
        m.append(t);
        return Err(m);
    }
    proof {
        assert(v@ =~= ser_walk_steps(t@)->Some_0);
    }
    Ok(v)
}
} // verus!
