//! Sets of strings held in `ahash::AHashSet`, as the validators keep the keys they
//! have used or allow.
use vstd::prelude::*;
use ahash::AHashSet;
use ahash::RandomState;

verus! {

#[verifier::external_type_specification]
#[verifier::external_body]
#[verifier::reject_recursive_types(T)]
#[verifier::reject_recursive_types(S)]
pub struct ExAHashSet<T, S>(AHashSet<T, S>);

#[verifier::external_type_specification]
#[verifier::external_body]
pub struct ExRandomState(RandomState);

/// The strings that an `AHashSet<String>` holds.
pub uninterp spec fn ahash_set_contents(s: AHashSet<String>) -> Set<Seq<char>>;

/// `AHashSet::new`: a set that holds nothing.
#[verifier::external_body]
pub(crate) fn string_set_new() -> (r: AHashSet<String>)
    ensures
        ahash_set_contents(r) == Set::<Seq<char>>::empty(),
{
    AHashSet::new()
}

/// `HashSet::insert` (reached through `AHashSet`'s `DerefMut`): the set holds `value`
/// afterwards, besides what it held before.
#[verifier::external_body]
pub(crate) fn string_set_insert(set: &mut AHashSet<String>, value: String)
    ensures
        ahash_set_contents(*final(set)) == ahash_set_contents(*old(set)).insert(value@),
{
    set.insert(value);
}

/// `HashSet::contains` (reached through `AHashSet`'s `Deref`): whether the set holds `value`.
#[verifier::external_body]
pub(crate) fn string_set_contains(set: &AHashSet<String>, value: &str) -> (r: bool)
    ensures
        r == ahash_set_contents(*set).contains(value@),
{
    set.contains(value)
}

} // verus!
