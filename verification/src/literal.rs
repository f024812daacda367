//! The `literal` validator: the value must be one of the expected literals.
use vstd::prelude::*;
use crate::constraints::root_error;
use crate::errors::{errors_view, ErrorType, LocItem, ValError};
use crate::index_map::{
    IntPositions, StrPositions, int_positions_contents, int_positions_get, int_positions_insert, int_positions_new,
    str_positions_contents, str_positions_get, str_positions_insert, str_positions_new,
};
use crate::union::{join_names, join_seqs, joined, strings_view};

verus! {

/// How an expected value shows in messages, and the name of a validator over them:
/// `repr` lists the values (`a`, `a or b`, `a, b or c`); `name` is `base_name[a,b,c]`.
pub open spec fn spec_expected_repr(repr_args: Seq<String>) -> Seq<char> {
    repr_of(strings_view(repr_args))
}

/// The parts `parts` listed as `a`, `a or b`, `a, b or c`.
pub open spec fn repr_of(parts: Seq<Seq<char>>) -> Seq<char> {
    if parts.len() == 1 {
        parts[0]
    } else {
        join_seqs(parts.drop_last(), ", "@) + " or "@ + parts.last()
    }
}

/// The message of the expected values `repr_args` and the name of a validator of them
/// (`base_name` followed by the values in brackets).
pub fn expected_repr_name(repr_args: Vec<String>, base_name: &str) -> (r: (String, String))
    requires
        repr_args.len() > 0,
    ensures
        r.0@ == spec_expected_repr(repr_args@),
        r.1@ == base_name@ + "["@ + joined(repr_args@, ","@) + "]"@,
{
    let mut name = String::from_str(base_name);
    name.append("[");
    let all = join_names(&repr_args, ",");
    name.append(all.as_str());
    name.append("]");
    let mut args = repr_args;
    let ghost before = args@;
    let last = args.pop().unwrap();
    proof {
        assert(args@ =~= before.drop_last());
        assert(strings_view(args@) =~= strings_view(before).drop_last());
    }
    let repr = if args.len() == 0 {
        last
    } else {
        let mut r = join_names(&args, ", ");
        r.append(" or ");
        r.append(last.as_str());
        r
    };
    (repr, name)
}

/// An expected literal: an integer, a string, or another value (compared by Python).
#[derive(Debug)]
pub enum LiteralItem {
    Int(i64),
    Str(String),
    Other,
}

/// The value being validated, as the literal validator sees it.
#[derive(Debug)]
pub enum LiteralInput {
    /// An `int` (exactly).
    Int(i64),
    /// A `str` (exactly).
    Str(String),
    /// Anything else.
    Other,
}

#[derive(Debug)]
pub struct LiteralValidator {
    /// For each expected integer, the position of the last item that is it.
    pub expected_int: Option<IntPositions>,
    /// For each expected string, the position of the last item that is it.
    pub expected_str: Option<StrPositions>,
    /// The positions of the other items.
    pub expected_py: Option<Vec<usize>>,
    pub expected_repr: String,
    pub name: String,
}

/// The position of the last item among the first `n` that is the integer `v`.
pub open spec fn last_int(items: Seq<LiteralItem>, v: int, n: int) -> Option<usize>
    decreases n,
{
    if n <= 0 {
        None
    } else if items[n - 1] matches LiteralItem::Int(w) && w == v {
        Some((n - 1) as usize)
    } else {
        last_int(items, v, n - 1)
    }
}

/// The position of the last item among the first `n` that is the string `s`.
pub open spec fn last_str(items: Seq<LiteralItem>, s: Seq<char>, n: int) -> Option<usize>
    decreases n,
{
    if n <= 0 {
        None
    } else if items[n - 1] matches LiteralItem::Str(w) && w@ == s {
        Some((n - 1) as usize)
    } else {
        last_str(items, s, n - 1)
    }
}

/// The positions of the items among the first `n` that are neither integers nor strings.
pub open spec fn other_items(items: Seq<LiteralItem>, n: int) -> Seq<usize>
    decreases n,
{
    if n <= 0 {
        Seq::empty()
    } else if items[n - 1] is Other {
        other_items(items, n - 1).push((n - 1) as usize)
    } else {
        other_items(items, n - 1)
    }
}

/// Whether one of the first `n` items is an integer.
pub open spec fn has_int(items: Seq<LiteralItem>, n: int) -> bool {
    exists|i: int| 0 <= i < n && #[trigger] items[i] is Int
}

/// Whether one of the first `n` items is a string.
pub open spec fn has_str(items: Seq<LiteralItem>, n: int) -> bool {
    exists|i: int| 0 <= i < n && #[trigger] items[i] is Str
}

pub open spec fn int_table_of(items: Seq<LiteralItem>, n: int) -> Map<int, usize> {
    Map::new(|v: int| last_int(items, v, n) is Some, |v: int| last_int(items, v, n)->Some_0)
}

pub open spec fn str_table_of(items: Seq<LiteralItem>, n: int) -> Map<Seq<char>, usize> {
    Map::new(|s: Seq<char>| last_str(items, s, n) is Some, |s: Seq<char>| last_str(items, s, n)->Some_0)
}

impl LiteralValidator {
    /// The spec view: for the items `items`, the tables of integers and strings, and the
    /// other items.
    pub open spec fn built_from(self, items: Seq<LiteralItem>) -> bool {
        let n = items.len() as int;
        &&& (self.expected_int is Some) == has_int(items, n)
        &&& self.expected_int matches Some(m) ==> int_positions_contents(m) == int_table_of(items, n)
        &&& (self.expected_str is Some) == has_str(items, n)
        &&& self.expected_str matches Some(m) ==> str_positions_contents(m) == str_table_of(items, n)
        &&& (self.expected_py is Some) == (other_items(items, n).len() > 0)
        &&& self.expected_py matches Some(v) ==> v@ == other_items(items, n)
    }

    /// Builds the validator from the expected items and how each shows (`reprs`); there
    /// must be at least one.
    pub fn build(items: Vec<LiteralItem>, reprs: Vec<String>) -> (r: Result<LiteralValidator, String>)
        requires
            reprs.len() == items.len(),
        ensures
            items.len() == 0 ==> (r matches Err(m) && m@ == "\"expected\" should have length > 0"@),
            items.len() > 0 ==> (r matches Ok(v) && v.built_from(items@) && v.expected_repr@ == spec_expected_repr(reprs@)
                && v.name@ == "literal"@ + "["@ + joined(reprs@, ","@) + "]"@),
    {
        if items.len() == 0 {
            return Err(String::from_str("\"expected\" should have length > 0"));
        }
        let mut ints = int_positions_new();
        let mut strs = str_positions_new();
        let mut others: Vec<usize> = Vec::new();
        let mut any_int = false;
        let mut any_str = false;
        let n = items.len();
        let mut i: usize = 0;
        while i < n
            invariant
                i <= n,
                n == items@.len(),
                int_positions_contents(ints) =~= int_table_of(items@, i as int),
                str_positions_contents(strs) =~= str_table_of(items@, i as int),
                others@ == other_items(items@, i as int),
                any_int == has_int(items@, i as int),
                any_str == has_str(items@, i as int),
            decreases n - i,
        {
            let ghost before_int = int_positions_contents(ints);
            let ghost before_str = str_positions_contents(strs);
            match &items[i] {
                LiteralItem::Int(v) => {
                    int_positions_insert(&mut ints, *v, i);
                    any_int = true;
                    proof {
                        assert(items@[i as int] is Int);
                    }
                },
                LiteralItem::Str(s) => {
                    str_positions_insert(&mut strs, s.clone(), i);
                    any_str = true;
                    proof {
                        assert(items@[i as int] is Str);
                    }
                },
                LiteralItem::Other => {
                    others.push(i);
                },
            }
            proof {
                assert forall|j: int| 0 <= j < i + 1 && #[trigger] items@[j] is Int implies has_int(items@, i + 1) by {}
                if has_int(items@, i + 1) && !(items@[i as int] is Int) {
                    let j = choose|j: int| 0 <= j < i + 1 && #[trigger] items@[j] is Int;
                    assert(j < i);
                }
                if has_str(items@, i + 1) && !(items@[i as int] is Str) {
                    let j = choose|j: int| 0 <= j < i + 1 && #[trigger] items@[j] is Str;
                    assert(j < i);
                }
                if items@[i as int] is Str {
                    assert(has_str(items@, i + 1));
                }
            }
            i = i + 1;
        }
        let (expected_repr, name) = expected_repr_name(reprs, "literal");
        Ok(
            LiteralValidator {
                expected_int: if any_int {
                    Some(ints)
                } else {
                    None
                },
                expected_str: if any_str {
                    Some(strs)
                } else {
                    None
                },
                expected_py: if others.len() > 0 {
                    Some(others)
                } else {
                    None
                },
                expected_repr,
                name,
            },
        )
    }

    /// The item that `input` is, given the position (where any) of the item among the
    /// other items that Python finds equal to it (`py_match`).
    pub open spec fn spec_match(self, input: LiteralInput, py_match: Option<usize>) -> Option<usize> {
        let by_int = match (self.expected_int, input) {
            (Some(m), LiteralInput::Int(v)) => if int_positions_contents(m).dom().contains(v as int) {
                Some(int_positions_contents(m)[v as int])
            } else {
                None
            },
            _ => None,
        };
        let by_str = match (self.expected_str, input) {
            (Some(m), LiteralInput::Str(s)) => if str_positions_contents(m).dom().contains(s@) {
                Some(str_positions_contents(m)[s@])
            } else {
                None
            },
            _ => None,
        };
        if by_int is Some {
            by_int
        } else if by_str is Some {
            by_str
        } else if self.expected_py is Some {
            py_match
        } else {
            None
        }
    }

    /// Validates `input`: the position of the expected item that it is, or the error
    /// listing the expected values. Among the items that are neither integers nor strings
    /// Python decides equality: `py_match` is the position of the one it found equal.
    pub fn validate(&self, input: &LiteralInput, py_match: Option<usize>) -> (r: Result<usize, ValError>)
        ensures
            self.spec_match(*input, py_match) matches Some(i) ==> r == Ok::<usize, ValError>(i),
            self.spec_match(*input, py_match) is None ==> (r matches Err(ValError::LineErrors(es)) && errors_view(es@)
                == seq![(ErrorType::LiteralError { expected: self.expected_repr }, Seq::<LocItem>::empty())]),
    {
        if let Some(m) = &self.expected_int {
            if let LiteralInput::Int(v) = input {
                if let Some(i) = int_positions_get(m, *v) {
                    return Ok(i);
                }
            }
        }
        if let Some(m) = &self.expected_str {
            if let LiteralInput::Str(s) = input {
                if let Some(i) = str_positions_get(m, s.as_str()) {
                    return Ok(i);
                }
            }
        }
        if self.expected_py.is_some() {
            if let Some(i) = py_match {
                return Ok(i);
            }
        }
        Err(root_error(ErrorType::LiteralError { expected: self.expected_repr.clone() }))
    }
}

} // verus!

verus! {

/// Whether the item `it` is the integer `x`.
pub open spec fn is_int_item(it: LiteralItem, x: int) -> bool {
    it matches LiteralItem::Int(w) && w == x
}

/// Whether the item `it` is the string `s`.
pub open spec fn is_str_item(it: LiteralItem, s: Seq<char>) -> bool {
    it matches LiteralItem::Str(w) && w@ == s
}

proof fn lemma_last_int(items: Seq<LiteralItem>, v: int, n: int)
    requires
        0 <= n <= items.len() <= usize::MAX,
    ensures
        last_int(items, v, n) matches Some(p) ==> p < n && is_int_item(items[p as int], v),
        last_int(items, v, n) is None ==> forall|i: int| 0 <= i < n ==> !is_int_item(#[trigger] items[i], v),
    decreases n,
{
    if n > 0 {
        lemma_last_int(items, v, n - 1);
    }
}

proof fn lemma_last_str(items: Seq<LiteralItem>, s: Seq<char>, n: int)
    requires
        0 <= n <= items.len() <= usize::MAX,
    ensures
        last_str(items, s, n) matches Some(p) ==> p < n && is_str_item(items[p as int], s),
        last_str(items, s, n) is None ==> forall|i: int| 0 <= i < n ==> !is_str_item(#[trigger] items[i], s),
    decreases n,
{
    if n > 0 {
        lemma_last_str(items, s, n - 1);
    }
}

/// A literal validator built from `items` takes an integer or a string exactly where it
/// is one of the items (without asking Python, where no item is of another kind), and
/// then gives the position of an item that is it.
pub proof fn literal_takes_exactly_its_items(v: LiteralValidator, items: Seq<LiteralItem>, input: LiteralInput)
    requires
        v.built_from(items),
        v.expected_py is None,
        items.len() <= usize::MAX,
    ensures
        input matches LiteralInput::Int(x) ==> ((v.spec_match(input, None) is Some) == (exists|i: int|
            0 <= i < items.len() && is_int_item(#[trigger] items[i], x as int))),
        input matches LiteralInput::Int(x) ==> (v.spec_match(input, None) matches Some(p) ==> (p < items.len()
            && is_int_item(items[p as int], x as int))),
        input matches LiteralInput::Str(s) ==> ((v.spec_match(input, None) is Some) == (exists|i: int|
            0 <= i < items.len() && is_str_item(#[trigger] items[i], s@))),
        input matches LiteralInput::Str(s) ==> (v.spec_match(input, None) matches Some(p) ==> (p < items.len()
            && is_str_item(items[p as int], s@))),
        input is Other ==> v.spec_match(input, None) is None,
{
    let n = items.len() as int;
    match input {
        LiteralInput::Int(x) => {
            lemma_last_int(items, x as int, n);
            if let Some(p) = last_int(items, x as int, n) {
                assert(has_int(items, n)) by {
                    assert(items[p as int] is Int);
                }
                assert(int_table_of(items, n).dom().contains(x as int));
            } else {
                if v.expected_int matches Some(m) {
                    assert(!int_table_of(items, n).dom().contains(x as int));
                }
            }
        },
        LiteralInput::Str(s) => {
            lemma_last_str(items, s@, n);
            if let Some(p) = last_str(items, s@, n) {
                assert(has_str(items, n)) by {
                    assert(items[p as int] is Str);
                }
                assert(str_table_of(items, n).dom().contains(s@));
            } else {
                if v.expected_str matches Some(m) {
                    assert(!str_table_of(items, n).dom().contains(s@));
                }
            }
        },
        LiteralInput::Other => {},
    }
}

} // verus!
