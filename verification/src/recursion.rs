//! Validation of recursive references: the guard that stops a validation from going
//! round in a loop (the identities of the inputs being validated through a reference).
use vstd::prelude::*;
use ahash::AHashSet;
use crate::constraints::{is_single_error, root_error};
use crate::errors::{ErrorType, ValError};

verus! {

/// The identities that an `AHashSet<usize>` holds.
pub uninterp spec fn id_set_contents(s: AHashSet<usize>) -> Set<usize>;

/// `AHashSet::new`: a set that holds nothing.
#[verifier::external_body]
fn id_set_new() -> (r: AHashSet<usize>)
    ensures
        id_set_contents(r) == Set::<usize>::empty(),
{
    AHashSet::new()
}

/// `HashSet::insert` (reached through `AHashSet`'s `DerefMut`): the set holds `id`
/// afterwards, besides what it held before; whether it did not hold it before.
#[verifier::external_body]
fn id_set_insert(set: &mut AHashSet<usize>, id: usize) -> (r: bool)
    ensures
        id_set_contents(*final(set)) == id_set_contents(*old(set)).insert(id),
        r == !id_set_contents(*old(set)).contains(id),
{
    set.insert(id)
}

/// `HashSet::remove` (reached through `AHashSet`'s `DerefMut`): the set no longer holds
/// `id`, and holds all else it held.
#[verifier::external_body]
fn id_set_remove(set: &mut AHashSet<usize>, id: usize)
    ensures
        id_set_contents(*final(set)) == id_set_contents(*old(set)).remove(id),
{
    set.remove(&id);
}

/// The identities of the inputs that are being validated through a recursive reference.
#[derive(Debug)]
pub struct RecursionGuard {
    pub ids: AHashSet<usize>,
}

impl RecursionGuard {
    pub open spec fn view_ids(self) -> Set<usize> {
        id_set_contents(self.ids)
    }

    /// A guard that holds nothing.
    pub fn new() -> (r: Self)
        ensures
            r.view_ids() == Set::<usize>::empty(),
    {
        RecursionGuard { ids: id_set_new() }
    }

    /// Whether the guard held `id`; it holds it afterwards.
    pub fn contains_or_insert(&mut self, id: usize) -> (r: bool)
        ensures
            r == old(self).view_ids().contains(id),
            final(self).view_ids() == old(self).view_ids().insert(id),
    {
        !id_set_insert(&mut self.ids, id)
    }

    /// The guard no longer holds `id`.
    pub fn remove(&mut self, id: usize)
        ensures
            final(self).view_ids() == old(self).view_ids().remove(id),
    {
        id_set_remove(&mut self.ids, id)
    }
}

/// The identities that the guard holds after entering the validation of an input with
/// the identity `identity`.
pub open spec fn after_enter(ids: Set<usize>, identity: Option<usize>) -> Set<usize> {
    match identity {
        Some(id) => ids.insert(id),
        None => ids,
    }
}

/// The identities that the guard holds after ending that validation (`added`: whether
/// entering it added the identity).
pub open spec fn after_exit(ids: Set<usize>, identity: Option<usize>, added: bool) -> Set<usize> {
    if added {
        ids.remove(identity->Some_0)
    } else {
        ids
    }
}

/// Enters the validation of an input with the identity `identity` (where it has one)
/// through a recursive reference: an input already being validated so is a recursion
/// loop; otherwise its identity is held until the validation ends. Whether it was added.
pub fn guard_enter(guard: &mut RecursionGuard, identity: Option<usize>) -> (r: Result<bool, ValError>)
    ensures
        final(guard).view_ids() == after_enter(old(guard).view_ids(), identity),
        match identity {
            None => r == Ok::<bool, ValError>(false),
            Some(id) => if old(guard).view_ids().contains(id) {
                r matches Err(e) && is_single_error(e, ErrorType::RecursionLoop)
            } else {
                r == Ok::<bool, ValError>(true)
            },
        },
{
    match identity {
        None => Ok(false),
        Some(id) => if guard.contains_or_insert(id) {
            Err(root_error(ErrorType::RecursionLoop))
        } else {
            Ok(true)
        },
    }
}

/// Ends the validation that `guard_enter` let in: the identity it added is let go, and
/// the validation's `output` is passed on.
pub fn guard_exit<T>(guard: &mut RecursionGuard, identity: Option<usize>, added: bool, output: Result<T, ValError>) -> (r: Result<
    T,
    ValError,
>)
    requires
        added ==> identity is Some,
    ensures
        r == output,
        final(guard).view_ids() == after_exit(old(guard).view_ids(), identity, added),
{
    if added {
        match identity {
            Some(id) => guard.remove(id),
            None => {},
        }
    }
    output
}

/// Entering and then ending the validation of an input through a recursive reference
/// leaves the guard as it was, where entering found no loop (the input's identity was not
/// held); entering then adds the identity exactly where the input has one.
pub proof fn enter_then_exit_restores(ids: Set<usize>, identity: Option<usize>)
    requires
        identity matches Some(id) ==> !ids.contains(id),
    ensures
        after_exit(after_enter(ids, identity), identity, identity is Some) == ids,
{
    if let Some(id) = identity {
        assert(ids.insert(id).remove(id) =~= ids);
    }
}

} // verus!

verus! {

/// A validator that refers to the slot of the validator of a schema with a reference.
#[derive(Debug)]
pub struct RecursiveRefValidator {
    pub validator_id: usize,
}

/// The validator that stands where a schema whose reference is used was built.
#[derive(Debug)]
pub struct RecursiveContainerValidator {
    pub validator_id: usize,
}

impl RecursiveContainerValidator {
    pub fn create(validator_id: usize) -> (r: Self)
        ensures
            r.validator_id == validator_id,
    {
        RecursiveContainerValidator { validator_id }
    }
}

impl RecursiveRefValidator {
    /// Builds the validator of a `recursive-ref` schema with the reference `schema_ref`:
    /// it refers to the first slot prepared for that reference; there must be one.
    pub fn build<V, A: Copy>(ctx: &crate::build_context::BuildContext<V, A>, schema_ref: &str) -> (r: Result<Self, String>)
        ensures
            match crate::build_context::first_slot(ctx.slots@, schema_ref@, ctx.slots@.len() as int) {
                Some(i) => r matches Ok(v) && v.validator_id == i as usize,
                None => r matches Err(m) && m@ == "Slots Error: ref '"@ + schema_ref@ + "' not found"@,
            },
    {
        match ctx.find_slot_id_answer(schema_ref) {
            Ok((id, _)) => Ok(RecursiveRefValidator { validator_id: id }),
            Err(e) => Err(e),
        }
    }

    /// The validator's name.
    pub fn get_name(&self) -> (r: &'static str)
        ensures
            r@ == "recursive-ref"@,
    {
        "recursive-ref"
    }
}

} // verus!
