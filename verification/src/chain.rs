//! The `chain` validators: the value goes through each step in turn, each step taking
//! what the one before gave; the first failure ends the chain.
use vstd::prelude::*;
use crate::errors::{error_with_outer, LocItem, ValError};
use crate::union::{join_names, joined};

verus! {

/// A step of a chain: its validator and the validator's name.
#[derive(Debug)]
pub struct ChainStep<V> {
    pub validator: V,
    pub name: String,
}

/// A chain of steps, named after them.
#[derive(Debug)]
pub struct ChainValidator<V> {
    pub steps: Vec<ChainStep<V>>,
    pub name: String,
}

/// What a chain schema builds.
#[derive(Debug)]
pub enum BuiltChain<V> {
    /// A chain of one step is that step.
    Single(ChainStep<V>),
    Chain(ChainValidator<V>),
}

/// The steps of `parts`, in order (each part is the steps of one step of the schema: a
/// nested chain's steps, or the one step).
pub open spec fn flattened<V>(parts: Seq<Seq<ChainStep<V>>>, n: int) -> Seq<ChainStep<V>>
    decreases n,
{
    if n <= 0 {
        Seq::empty()
    } else {
        flattened(parts, n - 1) + parts[n - 1]
    }
}

pub open spec fn step_names<V>(steps: Seq<ChainStep<V>>) -> Seq<String> {
    Seq::new(steps.len(), |i: int| steps[i].name)
}

pub open spec fn parts_view<V>(parts: Seq<Vec<ChainStep<V>>>) -> Seq<Seq<ChainStep<V>>> {
    Seq::new(parts.len(), |i: int| parts[i]@)
}

impl<V> ChainValidator<V> {
    /// Builds a chain from the steps of its schema's steps (a nested chain gives its own
    /// steps): an error where there are none, the step itself where there is one, else the
    /// chain, named after its steps.
    pub fn build(parts: Vec<Vec<ChainStep<V>>>) -> (r: Result<BuiltChain<V>, String>)
        ensures
            ({
                let steps = flattened(parts_view(parts@), parts@.len() as int);
                &&& steps.len() == 0 ==> (r matches Err(m) && m@ == "One or more steps required for a chain validator"@)
                &&& steps.len() == 1 ==> (r matches Ok(BuiltChain::Single(s)) && s == steps[0])
                &&& steps.len() > 1 ==> (r matches Ok(BuiltChain::Chain(c)) && c.steps@ == steps && c.name@ == "chain"@
                    + "["@ + joined(step_names(steps), ","@) + "]"@)
            }),
    {
        let ghost all = parts@;
        let ghost pv = parts_view(parts@);
        let mut steps: Vec<ChainStep<V>> = Vec::new();
        let mut rest = parts;
        let ghost mut i: int = 0;
        while rest.len() > 0
            invariant
                0 <= i <= all.len(),
                all == parts@,
                pv == parts_view(all),
                rest@ == all.subrange(i, all.len() as int),
                steps@ == flattened(pv, i),
            decreases rest.len(),
        {
            let mut part = rest.remove(0);
            proof {
                assert(part == all[i]);
                assert(part@ == pv[i]);
            }
            let ghost old_steps = steps@;
            steps.append(&mut part);
            proof {
                i = i + 1;
                assert(steps@ =~= old_steps + pv[i - 1]);
                assert(all.subrange(i, all.len() as int) =~= rest@);
            }
        }
        if steps.len() == 0 {
            return Err(String::from_str("One or more steps required for a chain validator"));
        }
        if steps.len() == 1 {
            let s = steps.remove(0);
            return Ok(BuiltChain::Single(s));
        }
        let mut names: Vec<String> = Vec::new();
        let mut k: usize = 0;
        while k < steps.len()
            invariant
                k <= steps.len(),
                names@ == step_names(steps@.subrange(0, k as int)),
            decreases steps.len() - k,
        {
            names.push(steps[k].name.clone());
            proof {
                assert(names@ =~= step_names(steps@.subrange(0, k + 1)));
            }
            k = k + 1;
        }
        proof {
            assert(steps@.subrange(0, steps@.len() as int) =~= steps@);
        }
        let descr = join_names(&names, ",");
        let mut name = String::from_str("chain[");
        name.append(descr.as_str());
        name.append("]");
        proof {
            reveal_strlit("chain[");
            reveal_strlit("chain");
            reveal_strlit("[");
            assert("chain["@ =~= "chain"@ + "["@);
        }
        Ok(BuiltChain::Chain(ChainValidator { steps, name }))
    }
}

/// The name of a chain of two or three steps, from the steps' names.
pub fn chain_n_name(prefix: &str, names: &Vec<String>) -> (r: String)
    ensures
        r@ == prefix@ + "["@ + joined(names@, ", "@) + "]"@,
{
    let mut name = String::from_str(prefix);
    name.append("[");
    let descr = join_names(names, ", ");
    name.append(descr.as_str());
    name.append("]");
    name
}

/// The position of the first failure among the first `n` outcomes.
pub open spec fn first_failure<T>(outcomes: Seq<Result<T, ValError>>, n: int) -> Option<int>
    decreases n,
{
    if n <= 0 {
        None
    } else {
        match first_failure(outcomes, n - 1) {
            Some(i) => Some(i),
            None => if outcomes[n - 1] is Err {
                Some(n - 1)
            } else {
                None
            },
        }
    }
}

proof fn lemma_first_failure_stays<T>(outcomes: Seq<Result<T, ValError>>, n: int, m: int)
    requires
        0 <= n <= m,
        first_failure(outcomes, n) is Some,
    ensures
        first_failure(outcomes, m) == first_failure(outcomes, n),
    decreases m - n,
{
    if m > n {
        lemma_first_failure_stays(outcomes, n, m - 1);
    }
}

impl<V> ChainValidator<V> {
    /// The outcome of the chain, whose steps gave `outcomes` in turn (see `validate_chain`).
    pub fn validate<T>(&self, outcomes: Vec<Result<T, ValError>>) -> (r: Result<T, ValError>)
        requires
            outcomes.len() > 0,
        ensures
            match first_failure(outcomes@, outcomes.len() as int) {
                Some(i) => r matches Err(e) && error_with_outer(outcomes@[i]->Err_0, LocItem::S(self.name), e),
                None => r == outcomes@[outcomes.len() - 1],
            },
    {
        validate_chain(&self.name, outcomes)
    }
}

/// A chain of two validators.
#[derive(Debug)]
pub struct Chain2Validator {
    pub name: String,
}

/// A chain of three validators.
#[derive(Debug)]
pub struct Chain3Validator {
    pub name: String,
}

impl Chain2Validator {
    /// Builds the chain of the validators named `name1` and `name2`.
    pub fn build(name1: String, name2: String) -> (r: Self)
        ensures
            r.name@ == "chain2"@ + "["@ + name1@ + ", "@ + name2@ + "]"@,
    {
        let mut names: Vec<String> = Vec::new();
        names.push(name1);
        names.push(name2);
        let r = Chain2Validator { name: chain_n_name("chain2", &names) };
        proof {
            lemma_joined_two(names@, ", "@);
        }
        r
    }

    /// The outcome of the chain, from those of its two validators in turn (the second is
    /// not looked at where the first failed).
    pub fn validate<T>(&self, first: Result<T, ValError>, second: Result<T, ValError>) -> (r: Result<T, ValError>)
        ensures
            match first {
                Err(e) => r matches Err(e2) && error_with_outer(e, LocItem::S(self.name), e2),
                Ok(_) => match second {
                    Err(e) => r matches Err(e2) && error_with_outer(e, LocItem::S(self.name), e2),
                    Ok(v) => r == Ok::<T, ValError>(v),
                },
            },
    {
        let mut outcomes: Vec<Result<T, ValError>> = Vec::new();
        outcomes.push(first);
        outcomes.push(second);
        proof {
            reveal_with_fuel(first_failure, 4);
            assert(first_failure(outcomes@, 1) == if outcomes@[0] is Err {
                Some(0int)
            } else {
                None
            });
        }
        validate_chain(&self.name, outcomes)
    }
}

impl Chain3Validator {
    /// Builds the chain of the validators named `name1`, `name2` and `name3`.
    pub fn build(name1: String, name2: String, name3: String) -> (r: Self)
        ensures
            r.name@ == "chain3"@ + "["@ + name1@ + ", "@ + name2@ + ", "@ + name3@ + "]"@,
    {
        let mut names: Vec<String> = Vec::new();
        names.push(name1);
        names.push(name2);
        names.push(name3);
        let r = Chain3Validator { name: chain_n_name("chain3", &names) };
        proof {
            lemma_joined_three(names@, ", "@);
        }
        r
    }

    /// The outcome of the chain, from those of its three validators in turn (each is not
    /// looked at where one before it failed).
    pub fn validate<T>(&self, first: Result<T, ValError>, second: Result<T, ValError>, third: Result<T, ValError>) -> (r: Result<
        T,
        ValError,
    >)
        ensures
            match first {
                Err(e) => r matches Err(e2) && error_with_outer(e, LocItem::S(self.name), e2),
                Ok(_) => match second {
                    Err(e) => r matches Err(e2) && error_with_outer(e, LocItem::S(self.name), e2),
                    Ok(_) => match third {
                        Err(e) => r matches Err(e2) && error_with_outer(e, LocItem::S(self.name), e2),
                        Ok(v) => r == Ok::<T, ValError>(v),
                    },
                },
            },
    {
        let mut outcomes: Vec<Result<T, ValError>> = Vec::new();
        outcomes.push(first);
        outcomes.push(second);
        outcomes.push(third);
        proof {
            reveal_with_fuel(first_failure, 4);
            assert(first_failure(outcomes@, 1) == if outcomes@[0] is Err {
                Some(0int)
            } else {
                None
            });
            assert(first_failure(outcomes@, 2) == if outcomes@[0] is Err {
                Some(0int)
            } else if outcomes@[1] is Err {
                Some(1int)
            } else {
                None
            });
        }
        validate_chain(&self.name, outcomes)
    }
}

proof fn lemma_joined_two(names: Seq<String>, sep: Seq<char>)
    requires
        names.len() == 2,
    ensures
        joined(names, sep) == names[0]@ + sep + names[1]@,
{
    reveal_with_fuel(crate::union::join_seqs, 3);
    assert(crate::union::strings_view(names).drop_last() =~= seq![names[0]@]);
}

proof fn lemma_joined_three(names: Seq<String>, sep: Seq<char>)
    requires
        names.len() == 3,
    ensures
        joined(names, sep) == names[0]@ + sep + names[1]@ + sep + names[2]@,
{
    reveal_with_fuel(crate::union::join_seqs, 4);
    assert(crate::union::strings_view(names).drop_last() =~= seq![names[0]@, names[1]@]);
    assert(crate::union::strings_view(names).drop_last().drop_last() =~= seq![names[0]@]);
}

/// The outcome of a chain named `name` whose steps gave `outcomes` in turn (each step on
/// what the one before gave): the first failure, with the chain's name in front of the
/// location of its line errors; else what the last step gave. The outcomes after the
/// first failure are not looked at.
pub fn validate_chain<T>(name: &String, outcomes: Vec<Result<T, ValError>>) -> (r: Result<T, ValError>)
    requires
        outcomes.len() > 0,
    ensures
        match first_failure(outcomes@, outcomes.len() as int) {
            Some(i) => r matches Err(e) && error_with_outer(outcomes@[i]->Err_0, LocItem::S(*name), e),
            None => r == outcomes@[outcomes.len() - 1],
        },
{
    let ghost all = outcomes@;
    let mut rest = outcomes;
    let mut last: Option<T> = None;
    let ghost mut i: int = 0;
    while rest.len() > 0
        invariant
            0 <= i <= all.len(),
            all == outcomes@,
            all.len() > 0,
            rest@ == all.subrange(i, all.len() as int),
            first_failure(all, i) is None,
            i > 0 ==> last == Some(all[i - 1]->Ok_0),
        decreases rest.len(),
    {
        let o = rest.remove(0);
        proof {
            assert(o == all[i]);
        }
        match o {
            Ok(v) => {
                last = Some(v);
            },
            Err(e) => {
                proof {
                    assert(first_failure(all, i + 1) == Some(i));
                    lemma_first_failure_stays(all, i + 1, all.len() as int);
                }
                return Err(e.with_outer_location(LocItem::S(name.clone())));
            },
        }
        proof {
            i = i + 1;
            assert(all.subrange(i, all.len() as int) =~= rest@);
        }
    }
    match last {
        Some(v) => Ok(v),
        None => {
            proof {
                assert(false);
            }
            Err(ValError::Omit)
        },
    }
}

} // verus!

verus! {

/// A chain fails exactly where one of its steps fails: no step fails among the first `n`
/// outcomes if and only if each of them is a success.
pub proof fn no_failure_iff_all_succeed<T>(outcomes: Seq<Result<T, ValError>>, n: int)
    requires
        0 <= n <= outcomes.len(),
    ensures
        (first_failure(outcomes, n) is None) == (forall|i: int| 0 <= i < n ==> (#[trigger] outcomes[i]) is Ok),
    decreases n,
{
    if n > 0 {
        no_failure_iff_all_succeed(outcomes, n - 1);
        if first_failure(outcomes, n - 1) is Some {
            let i = first_failure(outcomes, n - 1)->Some_0;
            lemma_first_failure_in_range(outcomes, n - 1);
            assert(outcomes[i] is Err);
        }
    }
}

proof fn lemma_first_failure_in_range<T>(outcomes: Seq<Result<T, ValError>>, n: int)
    ensures
        first_failure(outcomes, n) matches Some(i) ==> 0 <= i < n && outcomes[i] is Err,
    decreases n,
{
    if n > 0 {
        lemma_first_failure_in_range(outcomes, n - 1);
    }
}

} // verus!
