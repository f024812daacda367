//! Keys of a mapping input (a dict of keyword arguments, of fields) and how a field
//! or an argument finds its value among them.
use vstd::prelude::*;
use crate::errors::LocItem;

verus! {

/// A key of a mapping input, as the validators see it: a string, or a key that is not
/// a string (and then only where it stands, for error locations).
#[derive(Debug)]
pub enum InputKey {
    Str(String),
    NotStr(LocItem),
}

/// How a field or an argument is looked up: by its key, and failing that by a second
/// key (the name of an aliased field, where population by name is on).
#[derive(Debug)]
pub struct LookupKey {
    pub key: String,
    pub alt_key: Option<String>,
}

impl InputKey {
    pub open spec fn is_str(self, s: Seq<char>) -> bool {
        match self {
            InputKey::Str(k) => k@ == s,
            InputKey::NotStr(_) => false,
        }
    }
}

/// The first position of the string key `s` among `keys`.
pub open spec fn find_key(keys: Seq<InputKey>, s: Seq<char>) -> Option<int>
    decreases keys.len(),
{
    if keys.len() == 0 {
        None
    } else {
        match find_key(keys.drop_last(), s) {
            Some(i) => Some(i),
            None => if keys.last().is_str(s) {
                Some(keys.len() - 1)
            } else {
                None
            },
        }
    }
}

pub proof fn lemma_find_key(keys: Seq<InputKey>, s: Seq<char>)
    ensures
        find_key(keys, s) matches Some(i) ==> 0 <= i < keys.len() && keys[i].is_str(s) && forall|j: int|
            0 <= j < i ==> !#[trigger] keys[j].is_str(s),
        find_key(keys, s) is None ==> forall|j: int| 0 <= j < keys.len() ==> !#[trigger] keys[j].is_str(s),
    decreases keys.len(),
{
    if keys.len() > 0 {
        lemma_find_key(keys.drop_last(), s);
        assert forall|j: int| 0 <= j < keys.len() - 1 implies keys.drop_last()[j] == keys[j] by {}
    }
}

/// The key found and its position, looking for `lookup.key` and then for `lookup.alt_key`.
pub open spec fn lookup_spec(lookup: LookupKey, keys: Seq<InputKey>) -> Option<(Seq<char>, int)> {
    match find_key(keys, lookup.key@) {
        Some(i) => Some((lookup.key@, i)),
        None => match lookup.alt_key {
            Some(alt) => match find_key(keys, alt@) {
                Some(i) => Some((alt@, i)),
                None => None,
            },
            None => None,
        },
    }
}

/// The position of the string key `s` among `keys`, if it is there.
pub fn find_key_index(keys: &Vec<InputKey>, s: &str) -> (r: Option<usize>)
    ensures
        r matches Some(i) ==> find_key(keys@, s@) == Some(i as int) && i < keys.len(),
        r is None ==> find_key(keys@, s@) is None,
{
    let mut i: usize = 0;
    while i < keys.len()
        invariant
            i <= keys.len(),
            find_key(keys@.subrange(0, i as int), s@) is None,
        decreases keys.len() - i,
    {
        let hit = match &keys[i] {
            InputKey::Str(k) => str_eq(k.as_str(), s),
            InputKey::NotStr(_) => false,
        };
        proof {
            assert(keys@.subrange(0, i + 1).drop_last() =~= keys@.subrange(0, i as int));
        }
        if hit {
            proof {
                lemma_find_key(keys@, s@);
                lemma_find_key(keys@.subrange(0, i as int), s@);
                assert(keys@[i as int].is_str(s@));
                assert forall|j: int| 0 <= j < i implies !#[trigger] keys@[j].is_str(s@) by {
                    assert(keys@.subrange(0, i as int)[j] == keys@[j]);
                }
            }
            return Some(i);
        }
        i = i + 1;
    }
    proof {
        assert(keys@.subrange(0, keys.len() as int) =~= keys@);
    }
    None
}

/// Looks `lookup` up among `keys`: the key that was found and its position.
pub fn lookup_key(lookup: &LookupKey, keys: &Vec<InputKey>) -> (r: Option<(String, usize)>)
    ensures
        r matches Some((k, i)) ==> i < keys.len() && lookup_spec(*lookup, keys@) == Some((k@, i as int)) && (if find_key(
            keys@,
            lookup.key@,
        ) is Some {
            k == lookup.key
        } else {
            lookup.alt_key == Some(k)
        }),
        r is None ==> lookup_spec(*lookup, keys@) is None,
{
    match find_key_index(keys, lookup.key.as_str()) {
        Some(i) => Some((lookup.key.clone(), i)),
        None => match &lookup.alt_key {
            Some(alt) => match find_key_index(keys, alt.as_str()) {
                Some(i) => Some((alt.clone(), i)),
                None => None,
            },
            None => None,
        },
    }
}

/// Whether two strings hold the same characters.
pub fn str_eq(a: &str, b: &str) -> (r: bool)
    ensures
        r == (a@ == b@),
{
    let n = a.unicode_len();
    if n != b.unicode_len() {
        return false;
    }
    let mut i: usize = 0;
    while i < n
        invariant
            n == a@.len(),
            n == b@.len(),
            i <= n,
            a@.subrange(0, i as int) == b@.subrange(0, i as int),
        decreases n - i,
    {
        if a.get_char(i) != b.get_char(i) {
            return false;
        }
        proof {
            assert(a@.subrange(0, i + 1) =~= a@.subrange(0, i as int).push(a@[i as int]));
            assert(b@.subrange(0, i + 1) =~= b@.subrange(0, i as int).push(b@[i as int]));
        }
        i = i + 1;
    }
    proof {
        assert(a@ =~= a@.subrange(0, n as int));
        assert(b@ =~= b@.subrange(0, n as int));
    }
    true
}

} // verus!
