//! The build context: the validators that several other validators refer to (by a
//! schema reference) live in slots, filled in two steps, and the references that the
//! schema uses.
use vstd::prelude::*;
use ahash::AHashSet;
use crate::lookup::str_eq;
use crate::text::{decimal, usize_text};
use crate::string_set::{ahash_set_contents, string_set_contains, string_set_insert};

verus! {

/// A slot: its reference, its validator once built, and the answers about its schema.
#[derive(Debug)]
pub struct Slot<V, A> {
    pub slot_ref: String,
    pub op_validator: Option<V>,
    pub answers: A,
}

#[derive(Debug)]
pub struct BuildContext<V, A> {
    pub used_refs: AHashSet<String>,
    pub slots: Vec<Slot<V, A>>,
}

/// The position of the first slot among the first `n` with the reference `r`.
pub open spec fn first_slot<V, A>(slots: Seq<Slot<V, A>>, r: Seq<char>, n: int) -> Option<int>
    decreases n,
{
    if n <= 0 {
        None
    } else {
        match first_slot(slots, r, n - 1) {
            Some(i) => Some(i),
            None => if slots[n - 1].slot_ref@ == r {
                Some(n - 1)
            } else {
                None
            },
        }
    }
}

proof fn lemma_first_slot_stays<V, A>(slots: Seq<Slot<V, A>>, r: Seq<char>, n: int, m: int)
    requires
        0 <= n <= m,
        first_slot(slots, r, n) is Some,
    ensures
        first_slot(slots, r, m) == first_slot(slots, r, n),
    decreases m - n,
{
    if m > n {
        lemma_first_slot_stays(slots, r, n, m - 1);
    }
}

/// The first among the first `n` slots that is not filled or whose completion failed.
pub open spec fn first_slot_problem<V, A>(slots: Seq<Slot<V, A>>, completions: Seq<Result<V, String>>, n: int) -> Option<int>
    decreases n,
{
    if n <= 0 {
        None
    } else {
        match first_slot_problem(slots, completions, n - 1) {
            Some(i) => Some(i),
            None => if slots[n - 1].op_validator is None || completions[n - 1] is Err {
                Some(n - 1)
            } else {
                None
            },
        }
    }
}

proof fn lemma_first_slot_problem_stays<V, A>(slots: Seq<Slot<V, A>>, completions: Seq<Result<V, String>>, n: int, m: int)
    requires
        0 <= n <= m,
        first_slot_problem(slots, completions, n) is Some,
    ensures
        first_slot_problem(slots, completions, m) == first_slot_problem(slots, completions, n),
    decreases m - n,
{
    if m > n {
        lemma_first_slot_problem_stays(slots, completions, n, m - 1);
    }
}

/// The slots after an empty slot for `slot_ref` is added at the end.
pub open spec fn prepared<V, A>(slots: Seq<Slot<V, A>>, slot_ref: String, answers: A) -> Seq<Slot<V, A>> {
    slots.push(Slot { slot_ref, op_validator: None, answers })
}

/// The slots after the one at `id` is filled with `validator`.
pub open spec fn completed<V, A>(slots: Seq<Slot<V, A>>, id: int, validator: V) -> Seq<Slot<V, A>> {
    slots.update(id, Slot { slot_ref: slots[id].slot_ref, op_validator: Some(validator), answers: slots[id].answers })
}

impl<V, A: Copy> BuildContext<V, A> {
    pub fn new(used_refs: AHashSet<String>) -> (r: Self)
        ensures
            ahash_set_contents(r.used_refs) == ahash_set_contents(used_refs),
            r.slots@.len() == 0,
    {
        BuildContext { used_refs, slots: Vec::new() }
    }

    /// Whether the schema uses the reference `r` elsewhere.
    pub fn ref_used(&self, r: &str) -> (b: bool)
        ensures
            b == ahash_set_contents(self.used_refs).contains(r@),
    {
        string_set_contains(&self.used_refs, r)
    }

    /// Adds an empty slot for the reference `slot_ref`: its position.
    pub fn prepare_slot(&mut self, slot_ref: String, answers: A) -> (id: usize)
        ensures
            id == old(self).slots@.len(),
            final(self).slots@ == prepared(old(self).slots@, slot_ref, answers),
            ahash_set_contents(final(self).used_refs) == ahash_set_contents(old(self).used_refs),
    {
        let id = self.slots.len();
        self.slots.push(Slot { slot_ref, op_validator: None, answers });
        id
    }

    /// Fills the slot at `slot_id` with `validator`; fails where there is no such slot.
    pub fn complete_slot(&mut self, slot_id: usize, validator: V) -> (r: Result<(), String>)
        ensures
            slot_id < old(self).slots@.len() ==> r is Ok && final(self).slots@ == completed(old(self).slots@, slot_id as int, validator),
            slot_id >= old(self).slots@.len() ==> (r matches Err(m) && m@ == "Slots Error: slot "@ + decimal(slot_id as nat)
                + " not found"@) && final(self).slots@ == old(self).slots@,
            ahash_set_contents(final(self).used_refs) == ahash_set_contents(old(self).used_refs),
    {
        if slot_id < self.slots.len() {
            let slot_ref = self.slots[slot_id].slot_ref.clone();
            let answers = self.slots[slot_id].answers;
            self.slots.set(slot_id, Slot { slot_ref, op_validator: Some(validator), answers });
            proof {
                assert(self.slots@ =~= completed(old(self).slots@, slot_id as int, validator));
            }
            Ok(())
        } else {
            let mut m = String::from_str("Slots Error: slot ");
            m.append(usize_text(slot_id).as_str());
            m.append(" not found");
            Err(m)
        }
    }

    /// The position and the answers of the first slot with the reference `r`, where
    /// there is one.
    pub fn find_slot_id_answer(&self, r: &str) -> (res: Result<(usize, A), String>)
        ensures
            match first_slot(self.slots@, r@, self.slots@.len() as int) {
                Some(i) => res == Ok::<(usize, A), String>((i as usize, self.slots@[i].answers)),
                None => res matches Err(m) && m@ == "Slots Error: ref '"@ + r@ + "' not found"@,
            },
    {
        let n = self.slots.len();
        let mut i: usize = 0;
        while i < n
            invariant
                i <= n,
                n == self.slots@.len(),
                first_slot(self.slots@, r@, i as int) is None,
            decreases n - i,
        {
            if str_eq(self.slots[i].slot_ref.as_str(), r) {
                proof {
                    lemma_first_slot_stays(self.slots@, r@, i + 1, n as int);
                }
                return Ok((i, self.slots[i].answers));
            }
            i = i + 1;
        }
        let mut m = String::from_str("Slots Error: ref '");
        m.append(r);
        m.append("' not found");
        Err(m)
    }

    /// The validator in the slot at `slot_id`, where the slot is there and filled.
    pub fn find_validator(&self, slot_id: usize) -> (r: Result<&V, String>)
        ensures
            slot_id < self.slots@.len() && self.slots@[slot_id as int].op_validator is Some ==> (r matches Ok(v) && *v
                == self.slots@[slot_id as int].op_validator->Some_0),
            slot_id < self.slots@.len() && self.slots@[slot_id as int].op_validator is None ==> (r matches Err(m) && m@
                == "Slots Error: slot "@ + decimal(slot_id as nat) + " not yet filled"@),
            slot_id >= self.slots@.len() ==> (r matches Err(m) && m@ == "Slots Error: slot "@ + decimal(slot_id as nat)
                + " not found"@),
    {
        if slot_id < self.slots.len() {
            match &self.slots[slot_id].op_validator {
                Some(v) => Ok(v),
                None => {
                    let mut m = String::from_str("Slots Error: slot ");
                    m.append(usize_text(slot_id).as_str());
                    m.append(" not yet filled");
                    Err(m)
                },
            }
        } else {
            let mut m = String::from_str("Slots Error: slot ");
            m.append(usize_text(slot_id).as_str());
            m.append(" not found");
            Err(m)
        }
    }

    /// The validators of all slots, in their order, each completed: `completions` gives,
    /// for each slot, the outcome of completing its validator (the completed validator, or
    /// the error). Slots are taken in order; the first that is not filled, or whose
    /// completion failed, ends it with its error (the completions after it are not looked
    /// at).
    pub fn into_slots(self, completions: Vec<Result<V, String>>) -> (r: Result<Vec<V>, String>)
        requires
            completions.len() == self.slots.len(),
        ensures
            match first_slot_problem(self.slots@, completions@, self.slots@.len() as int) {
                None => r matches Ok(v) && v@.len() == self.slots@.len() && forall|i: int|
                    0 <= i < v@.len() ==> completions@[i] == Ok::<V, String>(#[trigger] v@[i]),
                Some(i) => if self.slots@[i].op_validator is None {
                    r matches Err(m) && m@ == "Slots Error: slot not yet filled"@
                } else {
                    r == Err::<Vec<V>, String>(completions@[i]->Err_0)
                },
            },
    {
        let ghost all = self.slots@;
        let ghost comps = completions@;
        let mut rest = self.slots;
        let mut rest_c = completions;
        let mut out: Vec<V> = Vec::new();
        let ghost mut i: int = 0;
        while rest.len() > 0
            invariant
                0 <= i <= all.len(),
                all == self.slots@,
                comps == completions@,
                all.len() == comps.len(),
                rest@ == all.subrange(i, all.len() as int),
                rest_c@ == comps.subrange(i, comps.len() as int),
                out@.len() == i,
                first_slot_problem(all, comps, i) is None,
                forall|k: int| 0 <= k < i ==> comps[k] == Ok::<V, String>(#[trigger] out@[k]),
            decreases rest.len(),
        {
            let s = rest.remove(0);
            let c = rest_c.remove(0);
            let ghost cg = c;
            proof {
                assert(s == all[i]);
                assert(c == comps[i]);
            }
            if s.op_validator.is_none() {
                proof {
                    assert(first_slot_problem(all, comps, i + 1) == Some(i));
                    lemma_first_slot_problem_stays(all, comps, i + 1, all.len() as int);
                }
                return Err(String::from_str("Slots Error: slot not yet filled"));
            }
            match c {
                Ok(v) => out.push(v),
                Err(e) => {
                    proof {
                        assert(first_slot_problem(all, comps, i + 1) == Some(i));
                        lemma_first_slot_problem_stays(all, comps, i + 1, all.len() as int);
                        assert(cg == Err::<V, String>(e));
                    }
                    return Err(e);
                },
            }
            proof {
                i = i + 1;
                assert(all.subrange(i, all.len() as int) =~= rest@);
                assert(comps.subrange(i, comps.len() as int) =~= rest_c@);
            }
        }
        Ok(out)
    }
}

/// A slot that is prepared for a reference that no slot has yet, and then filled, holds
/// the validator it was filled with, and looking the reference up finds that slot.
pub proof fn prepare_then_complete<V, A>(slots: Seq<Slot<V, A>>, slot_ref: String, answers: A, validator: V)
    requires
        first_slot(slots, slot_ref@, slots.len() as int) is None,
    ensures
        ({
            let after = completed(prepared(slots, slot_ref, answers), slots.len() as int, validator);
            &&& after.len() == slots.len() + 1
            &&& after[slots.len() as int].op_validator == Some(validator)
            &&& first_slot(after, slot_ref@, after.len() as int) == Some(slots.len() as int)
        }),
{
    let after = completed(prepared(slots, slot_ref, answers), slots.len() as int, validator);
    lemma_first_slot_prefix(after, slots, slot_ref@, slots.len() as int);
}

proof fn lemma_first_slot_prefix<V, A>(a: Seq<Slot<V, A>>, b: Seq<Slot<V, A>>, r: Seq<char>, n: int)
    requires
        0 <= n <= b.len(),
        b.len() <= a.len(),
        forall|j: int| 0 <= j < b.len() ==> #[trigger] a[j] == b[j],
    ensures
        first_slot(a, r, n) == first_slot(b, r, n),
    decreases n,
{
    if n > 0 {
        lemma_first_slot_prefix(a, b, r, n - 1);
    }
}

} // verus!

verus! {

/// What building the validator of a schema gives: the validator itself, or, where other
/// schemas use the schema's reference, a reference to the slot that holds it (with the
/// validator's name and the answers about its schema).
#[derive(Debug)]
pub enum Built<V, A> {
    Direct(V),
    RecursiveRef { slot_id: usize, name: String, answers: A },
}

impl<V, A: Copy> BuildContext<V, A> {
    /// Before the validator of a schema with the reference `schema_ref` (where it has one)
    /// is built: where other schemas use that reference, a slot is prepared for it, and
    /// its position is returned.
    pub fn begin_specific(&mut self, schema_ref: Option<String>, answers: A) -> (slot: Option<usize>)
        ensures
            ahash_set_contents(final(self).used_refs) == ahash_set_contents(old(self).used_refs),
            match schema_ref {
                Some(r) => if ahash_set_contents(old(self).used_refs).contains(r@) {
                    slot == Some(old(self).slots@.len() as usize) && final(self).slots@ == prepared(
                        old(self).slots@,
                        r,
                        answers,
                    )
                } else {
                    slot is None && final(self).slots@ == old(self).slots@
                },
                None => slot is None && final(self).slots@ == old(self).slots@,
            },
    {
        match schema_ref {
            Some(r) => if self.ref_used(r.as_str()) {
                Some(self.prepare_slot(r, answers))
            } else {
                None
            },
            None => None,
        }
    }

    /// Once the validator of a schema of the type `val_type` is built (`built`: the
    /// validator and its name, or the error): where a slot was prepared for it, the slot is
    /// filled and the reference to it is the result (an error passes as it is); otherwise
    /// the validator is the result, and an error names the type.
    pub fn finish_specific(&mut self, val_type: &str, slot: Option<usize>, built: Result<(V, String), String>) -> (r: Result<
        Built<V, A>,
        String,
    >)
        requires
            slot matches Some(id) ==> id < old(self).slots@.len(),
        ensures
            ahash_set_contents(final(self).used_refs) == ahash_set_contents(old(self).used_refs),
            match slot {
                None => final(self).slots@ == old(self).slots@ && match built {
                    Ok((v, _)) => r == Ok::<Built<V, A>, String>(Built::Direct(v)),
                    Err(m) => r matches Err(m2) && m2@ == "Error building \""@ + val_type@ + "\" validator:\n  "@ + m@,
                },
                Some(id) => match built {
                    Ok((v, name)) => final(self).slots@ == completed(old(self).slots@, id as int, v) && r == Ok::<
                        Built<V, A>,
                        String,
                    >(Built::RecursiveRef { slot_id: id, name, answers: old(self).slots@[id as int].answers }),
                    Err(m) => final(self).slots@ == old(self).slots@ && r == Err::<Built<V, A>, String>(m),
                },
            },
    {
        match slot {
            None => match built {
                Ok((v, _)) => Ok(Built::Direct(v)),
                Err(m) => {
                    let mut m2 = String::from_str("Error building \"");
                    m2.append(val_type);
                    m2.append("\" validator:\n  ");
                    m2.append(m.as_str());
                    Err(m2)
                },
            },
            Some(id) => match built {
                Ok((v, name)) => {
                    let answers = self.slots[id].answers;
                    match self.complete_slot(id, v) {
                        Ok(()) => Ok(Built::RecursiveRef { slot_id: id, name, answers }),
                        Err(e) => Err(e),
                    }
                },
                Err(m) => Err(m),
            },
        }
    }
}

} // verus!

verus! {

/// A value of a schema, as the search for the references it uses sees it.
#[derive(Debug)]
pub enum SchemaValue {
    /// A dict: whether its `type` is `recursive-ref`, its `schema_ref` (where that is a
    /// string), and its values, in order.
    Dict { recursive_ref: bool, schema_ref: Option<String>, values: Vec<SchemaValue> },
    List(Vec<SchemaValue>),
    /// Anything else.
    Other,
}

/// The two sets, joined, where both searches succeeded.
pub open spec fn join_refs(a: Option<Set<Seq<char>>>, b: Option<Set<Seq<char>>>) -> Option<Set<Seq<char>>> {
    match (a, b) {
        (Some(x), Some(y)) => Some(x.union(y)),
        _ => None,
    }
}

/// The references that the values `vs` use: the `schema_ref` of each `recursive-ref`
/// dict among them and inside them (where a `recursive-ref` has no `schema_ref`, the
/// search fails: `None`).
pub open spec fn refs_of_seq(vs: Seq<SchemaValue>) -> Option<Set<Seq<char>>>
    decreases vs,
    via refs_of_seq_decreases
{
    if vs.len() == 0 {
        Some(Set::empty())
    } else {
        join_refs(
            refs_of_seq(vs.drop_last()),
            match vs.last() {
                SchemaValue::Dict { recursive_ref, schema_ref, values } => if recursive_ref {
                    match schema_ref {
                        Some(r) => Some(Set::empty().insert(r@)),
                        None => None,
                    }
                } else {
                    refs_of_seq(values@)
                },
                SchemaValue::List(items) => refs_of_seq(items@),
                SchemaValue::Other => Some(Set::empty()),
            },
        )
    }
}

#[via_fn]
proof fn refs_of_seq_decreases(vs: Seq<SchemaValue>) {
    broadcast use vstd::seq::axiom_seq_index_decreases, vstd::std_specs::vec::axiom_vec_decreases_to_view;

    if vs.len() > 0 {
        assert(decreases_to!(vs => vs[vs.len() - 1]));
        assert(vs.drop_last().len() < vs.len());
        vstd::seq::axiom_seq_subrange_decreases(vs, 0, vs.len() - 1);
        match vs.last() {
            SchemaValue::Dict { values, .. } => {
                assert(decreases_to!(vs.last() => values));
                assert(decreases_to!(values => values@));
            },
            SchemaValue::List(items) => {
                assert(decreases_to!(vs.last() => items));
                assert(decreases_to!(items => items@));
            },
            SchemaValue::Other => {},
        }
    }
}

/// The references that the value `v` uses (see `refs_of_seq`).
pub open spec fn refs_of(v: SchemaValue) -> Option<Set<Seq<char>>> {
    refs_of_seq(seq![v])
}

/// Adds to `refs` the references that `v` uses (see `refs_of`); fails where a
/// `recursive-ref` has no `schema_ref`.
pub fn extract_used_refs(v: &SchemaValue, refs: &mut AHashSet<String>) -> (r: Result<(), ()>)
    ensures
        match refs_of(*v) {
            Some(s) => r is Ok && ahash_set_contents(*final(refs)) == ahash_set_contents(*old(refs)).union(s),
            None => r is Err,
        },
    decreases v,
{
    proof {
        assert(seq![*v].drop_last() =~= Seq::<SchemaValue>::empty());
        assert(seq![*v].last() == *v);
        assert(refs_of_seq(Seq::<SchemaValue>::empty()) == Some(Set::<Seq<char>>::empty()));
    }
    match v {
        SchemaValue::Dict { recursive_ref, schema_ref, values } => {
            if *recursive_ref {
                match schema_ref {
                    Some(s) => {
                        string_set_insert(refs, s.clone());
                        proof {
                            assert(ahash_set_contents(*old(refs)).insert(s@) =~= ahash_set_contents(*old(refs)).union(
                                Set::empty().union(Set::empty().insert(s@)),
                            ));
                        }
                        Ok(())
                    },
                    None => Err(()),
                }
            } else {
                let r = extract_all(values, refs);
                proof {
                    if refs_of_seq(values@) is Some {
                        assert(Set::<Seq<char>>::empty().union(refs_of_seq(values@)->Some_0) =~= refs_of_seq(values@)->Some_0);
                    }
                }
                r
            }
        },
        SchemaValue::List(items) => {
            let r = extract_all(items, refs);
            proof {
                if refs_of_seq(items@) is Some {
                    assert(Set::<Seq<char>>::empty().union(refs_of_seq(items@)->Some_0) =~= refs_of_seq(items@)->Some_0);
                }
            }
            r
        },
        SchemaValue::Other => {
            proof {
                assert(ahash_set_contents(*old(refs)).union(Set::empty().union(Set::empty())) =~= ahash_set_contents(*old(refs)));
            }
            Ok(())
        },
    }
}

fn extract_all(vs: &Vec<SchemaValue>, refs: &mut AHashSet<String>) -> (r: Result<(), ()>)
    ensures
        match refs_of_seq(vs@) {
            Some(s) => r is Ok && ahash_set_contents(*final(refs)) == ahash_set_contents(*old(refs)).union(s),
            None => r is Err,
        },
    decreases vs,
{
    let mut i: usize = 0;
    while i < vs.len()
        invariant
            i <= vs.len(),
            refs_of_seq(vs@.subrange(0, i as int)) matches Some(s) && ahash_set_contents(*refs) == ahash_set_contents(
                *old(refs),
            ).union(s),
        decreases vs.len() - i,
    {
        let ghost before = ahash_set_contents(*refs);
        proof {
            vstd::std_specs::vec::axiom_vec_index_decreases(*vs, i as int);
        }
        let r = extract_used_refs(&vs[i], refs);
        proof {
            let pre = vs@.subrange(0, i as int);
            let next = vs@.subrange(0, i + 1);
            assert(next =~= pre.push(vs@[i as int]));
            lemma_refs_push(pre, vs@[i as int]);
        }
        match r {
            Err(()) => {
                proof {
                    lemma_refs_of_seq_fails(vs@, i as int + 1);
                    assert(vs@.subrange(0, vs@.len() as int) =~= vs@);
                }
                return Err(());
            },
            Ok(()) => {},
        }
        proof {
            let pre = vs@.subrange(0, i as int);
            let sp = refs_of_seq(pre)->Some_0;
            let sv = refs_of(vs@[i as int])->Some_0;
            assert(ahash_set_contents(*refs) =~= ahash_set_contents(*old(refs)).union(sp.union(sv)));
        }
        i = i + 1;
    }
    proof {
        assert(vs@.subrange(0, vs@.len() as int) =~= vs@);
    }
    Ok(())
}

/// The references that `s` followed by `x` uses: those of `s` and those of `x`.
proof fn lemma_refs_push(s: Seq<SchemaValue>, x: SchemaValue)
    ensures
        refs_of_seq(s.push(x)) == join_refs(refs_of_seq(s), refs_of(x)),
{
    assert(s.push(x).drop_last() =~= s);
    assert(s.push(x).last() == x);
    assert(seq![x].drop_last() =~= Seq::<SchemaValue>::empty());
    assert(seq![x].last() == x);
    assert(refs_of_seq(Seq::<SchemaValue>::empty()) == Some(Set::<Seq<char>>::empty()));
    let e = match x {
        SchemaValue::Dict { recursive_ref, schema_ref, values } => if recursive_ref {
            match schema_ref {
                Some(r) => Some(Set::empty().insert(r@)),
                None => None,
            }
        } else {
            refs_of_seq(values@)
        },
        SchemaValue::List(items) => refs_of_seq(items@),
        SchemaValue::Other => Some(Set::empty()),
    };
    assert(refs_of_seq(s.push(x)) == join_refs(refs_of_seq(s), e));
    assert(refs_of(x) == join_refs(Some(Set::empty()), e));
    if let Some(a) = e {
        assert(Set::<Seq<char>>::empty().union(a) =~= a);
    }
}

/// Once the search fails on a prefix, it fails on the whole.
proof fn lemma_refs_of_seq_fails(vs: Seq<SchemaValue>, n: int)
    requires
        0 <= n <= vs.len(),
        refs_of_seq(vs.subrange(0, n)) is None,
    ensures
        refs_of_seq(vs.subrange(0, vs.len() as int)) is None,
    decreases vs.len() - n,
{
    if n < vs.len() {
        assert(vs.subrange(0, n + 1) =~= vs.subrange(0, n).push(vs[n]));
        lemma_refs_push(vs.subrange(0, n), vs[n]);
        lemma_refs_of_seq_fails(vs, n + 1);
    }
}

} // verus!
