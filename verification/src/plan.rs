//! Validators of several values at once (arguments, fields of a model or a typed dict)
//! first decide, for each value they need, where it comes from, where its validated
//! form goes and what an error about it is attached to: a plan of steps. The values
//! are then validated by the inner validators, in the order of the plan, and the
//! outcomes are gathered into the output by `run_plan`.
use vstd::prelude::*;
use crate::errors::{errors_view, errors_with_outer, inputs_view, prefix_errors, ErrorInput, ErrorType, LocItem, ValError, ValLineError};

verus! {

/// Where a value that a step needs comes from.
#[derive(Debug)]
pub enum Source {
    /// The positional argument at this position.
    Positional(usize),
    /// The value of the keyword argument, or of the mapping entry, at this position.
    Keyword(usize),
    /// The default of the parameter or field with this index.
    Default(usize),
    /// The keyword arguments that no parameter took, gathered into one mapping.
    RemainingKeywords,
    /// The entry at the second position inside the mapping that is the value of the
    /// entry at the first position.
    Nested(usize, usize),
    /// The entries of the mapping that is the value of the entry at this position (no
    /// entries where that value is not a mapping).
    KeywordsAt(usize),
}

/// Which validator a step uses for its value.
#[derive(Debug)]
pub enum Inner {
    /// The validator of the parameter or field with this index.
    Item(usize),
    /// The validator of extra positional arguments.
    VarArgs,
    /// The validator of extra keyword arguments.
    VarKwargs,
    /// The validator of extra mapping entries.
    Extras,
    /// None: the value is used as it is.
    Nothing,
}

/// Where the validated value of a step goes.
#[derive(Debug)]
pub enum Target {
    /// Appended to the positional output.
    Args,
    /// Set under this key in the output mapping.
    Dict(String),
    /// Set under this key in the mapping of extra (undeclared) entries.
    Extra(String),
    /// Set under this key in the mapping of init-only values (dataclasses).
    InitOnly(String),
    /// A mapping whose entries are all set in the output mapping.
    Merge,
    /// Validated, and then dropped.
    Drop,
}

/// What a step does with the line errors of its validation.
#[derive(Debug, PartialEq, Eq, Structural, Clone, Copy)]
pub enum OnLineErrors {
    /// They are gathered, and the run goes on.
    Collect,
    /// They end the run.
    Stop,
    /// They are dropped, and the run goes on.
    Drop,
}

/// One step of a plan.
#[derive(Debug)]
pub enum Step {
    /// Validate (or obtain) the value from `source` with the inner validator `validator`.
    /// On success the value goes to `target`, and is counted as set where `mark_set`.
    /// Line errors are handled as `on_line_errors` says (gathered each inside `loc`
    /// where it is given); an omitted value is skipped where `skip_omit`; any other
    /// failure ends the run with that failure.
    Fill {
        source: Source,
        validator: Inner,
        target: Target,
        loc: Option<LocItem>,
        on_line_errors: OnLineErrors,
        skip_omit: bool,
        mark_set: bool,
    },
    /// An error that the plan itself has found, at `loc` where it is given, about the value
    /// `input`.
    Fail { error_type: ErrorType, loc: Option<LocItem>, input: ErrorInput },
}

/// What a run of a plan gathers.
#[derive(Debug)]
pub struct Gathered<T> {
    pub args: Vec<T>,
    pub dict: Vec<(String, T)>,
    pub extra: Vec<(String, T)>,
    pub init_only: Vec<(String, T)>,
    pub merged: Vec<T>,
    pub fields_set: Vec<String>,
    pub errors: Vec<ValLineError>,
}

/// The same, as plain values.
#[verifier::ext_equal]
pub struct GatheredView<T> {
    pub args: Seq<T>,
    pub dict: Seq<(String, T)>,
    pub extra: Seq<(String, T)>,
    pub init_only: Seq<(String, T)>,
    pub merged: Seq<T>,
    pub fields_set: Seq<String>,
    pub errors: Seq<(ErrorType, Seq<LocItem>)>,
    /// The value that each error reports.
    pub error_inputs: Seq<ErrorInput>,
}

impl<T> View for Gathered<T> {
    type V = GatheredView<T>;

    open spec fn view(&self) -> GatheredView<T> {
        GatheredView {
            args: self.args@,
            dict: self.dict@,
            extra: self.extra@,
            init_only: self.init_only@,
            merged: self.merged@,
            fields_set: self.fields_set@,
            errors: errors_view(self.errors@),
            error_inputs: inputs_view(self.errors@),
        }
    }
}

pub open spec fn empty_gathered<T>() -> GatheredView<T> {
    GatheredView {
        args: Seq::empty(),
        dict: Seq::empty(),
        extra: Seq::empty(),
        init_only: Seq::empty(),
        merged: Seq::empty(),
        fields_set: Seq::empty(),
        errors: Seq::empty(),
        error_inputs: Seq::empty(),
    }
}

/// `errors`, each inside `loc` where it is given.
pub open spec fn located(errors: Seq<ValLineError>, loc: Option<LocItem>) -> Seq<(ErrorType, Seq<LocItem>)> {
    match loc {
        Some(l) => errors_with_outer(errors, l),
        None => errors_view(errors),
    }
}

/// `g` with the value `v` placed at `target`.
pub open spec fn place<T>(g: GatheredView<T>, target: Target, v: T, mark_set: bool) -> GatheredView<T> {
    let g2 = match target {
        Target::Args => GatheredView { args: g.args.push(v), ..g },
        Target::Dict(k) => GatheredView { dict: g.dict.push((k, v)), ..g },
        Target::Extra(k) => GatheredView { extra: g.extra.push((k, v)), ..g },
        Target::InitOnly(k) => GatheredView { init_only: g.init_only.push((k, v)), ..g },
        Target::Merge => GatheredView { merged: g.merged.push(v), ..g },
        Target::Drop => g,
    };
    if mark_set {
        match target {
            Target::Dict(k) => GatheredView { fields_set: g2.fields_set.push(k), ..g2 },
            Target::Extra(k) => GatheredView { fields_set: g2.fields_set.push(k), ..g2 },
            _ => g2,
        }
    } else {
        g2
    }
}

/// The effect of one step with its outcome on what has been gathered so far.
pub open spec fn step_spec<T>(g: GatheredView<T>, step: Step, outcome: Result<T, ValError>) -> Result<GatheredView<T>, ValError> {
    match step {
        Step::Fail { error_type, loc, input } => Ok(
            GatheredView {
                errors: g.errors.push(
                    (
                        error_type,
                        match loc {
                            Some(l) => seq![l],
                            None => Seq::empty(),
                        },
                    ),
                ),
                error_inputs: g.error_inputs.push(input),
                ..g
            },
        ),
        Step::Fill { source, validator, target, loc, on_line_errors, skip_omit, mark_set } => match outcome {
            Ok(v) => Ok(place(g, target, v, mark_set)),
            Err(ValError::LineErrors(es)) => match on_line_errors {
                OnLineErrors::Collect => Ok(
                    GatheredView {
                        errors: g.errors + located(es@, loc),
                        error_inputs: g.error_inputs + inputs_view(es@),
                        ..g
                    },
                ),
                OnLineErrors::Stop => Err(ValError::LineErrors(es)),
                OnLineErrors::Drop => Ok(g),
            },
            Err(ValError::Omit) => if skip_omit {
                Ok(g)
            } else {
                Err(ValError::Omit)
            },
            Err(e) => Err(e),
        },
    }
}

/// The effect of the first `n` steps of `steps` with their outcomes.
pub open spec fn run_spec<T>(steps: Seq<Step>, outcomes: Seq<Result<T, ValError>>, n: int) -> Result<GatheredView<T>, ValError>
    decreases n,
{
    if n <= 0 {
        Ok(empty_gathered())
    } else {
        match run_spec(steps, outcomes, n - 1) {
            Ok(g) => step_spec(g, steps[n - 1], outcomes[n - 1]),
            Err(e) => Err(e),
        }
    }
}

/// `r`, with what it gathered taken as plain values.
pub open spec fn result_view<T>(r: Result<Gathered<T>, ValError>) -> Result<GatheredView<T>, ValError> {
    match r {
        Ok(g) => Ok(g@),
        Err(e) => Err(e),
    }
}

/// How a validation ends after a run with the result `run`: with the gathered errors
/// where there are any, else with what was gathered; a failed run fails the same way.
pub open spec fn finished<T>(run: Result<GatheredView<T>, ValError>, out: Result<Gathered<T>, ValError>) -> bool {
    match run {
        Ok(g) => if g.errors.len() == 0 {
            out matches Ok(g2) && g2@ == g
        } else {
            out matches Err(ValError::LineErrors(es)) && errors_view(es@) == g.errors && inputs_view(es@) == g.error_inputs
        },
        Err(e) => out == Err::<Gathered<T>, ValError>(e),
    }
}

/// Ends a validation: the gathered errors where there are any, else the output.
pub fn finish<T>(r: Result<Gathered<T>, ValError>) -> (out: Result<Gathered<T>, ValError>)
    ensures
        finished(result_view(r), out),
{
    match r {
        Ok(g) => if g.errors.len() == 0 {
            Ok(g)
        } else {
            Err(ValError::LineErrors(g.errors))
        },
        Err(e) => Err(e),
    }
}

/// Runs `steps` with their `outcomes` and ends the validation.
pub fn run_and_finish<T>(steps: Vec<Step>, outcomes: Vec<Result<T, ValError>>) -> (out: Result<Gathered<T>, ValError>)
    requires
        outcomes.len() == steps.len(),
    ensures
        finished(run_spec(steps@, outcomes@, steps.len() as int), out),
{
    let r = run_plan(steps, outcomes);
    finish(r)
}

/// Once a run has failed, the steps after do not change its failure.
pub proof fn lemma_run_spec_err<T>(steps: Seq<Step>, outcomes: Seq<Result<T, ValError>>, n: int, m: int)
    requires
        0 <= n <= m,
        run_spec(steps, outcomes, n) is Err,
    ensures
        run_spec(steps, outcomes, m) == run_spec(steps, outcomes, n),
    decreases m - n,
{
    if m > n {
        lemma_run_spec_err(steps, outcomes, n, m - 1);
    }
}

/// Whether a step with its outcome puts an error into the validation's result: a failure
/// the plan found, line errors that are gathered or that stop the run, an omission that
/// is not skipped, or any other failure.
pub open spec fn reports_error<T>(step: Step, outcome: Result<T, ValError>) -> bool {
    match step {
        Step::Fail { .. } => true,
        Step::Fill { on_line_errors, skip_omit, .. } => match outcome {
            Ok(_) => false,
            Err(ValError::LineErrors(es)) => match on_line_errors {
                OnLineErrors::Collect => es@.len() > 0,
                OnLineErrors::Stop => true,
                OnLineErrors::Drop => false,
            },
            Err(ValError::Omit) => !skip_omit,
            Err(_) => true,
        },
    }
}

/// The errors that a run has gathered stay, in their order, through the steps after.
pub proof fn gathered_errors_stay<T>(steps: Seq<Step>, outcomes: Seq<Result<T, ValError>>, n: int, m: int)
    requires
        0 <= n <= m,
        run_spec(steps, outcomes, m) is Ok,
    ensures
        run_spec(steps, outcomes, n) is Ok,
        run_spec(steps, outcomes, n)->Ok_0.errors.len() <= run_spec(steps, outcomes, m)->Ok_0.errors.len(),
        run_spec(steps, outcomes, m)->Ok_0.errors.subrange(0, run_spec(steps, outcomes, n)->Ok_0.errors.len() as int)
            == run_spec(steps, outcomes, n)->Ok_0.errors,
    decreases m - n,
{
    if m > n {
        let prev = run_spec(steps, outcomes, m - 1);
        if prev is Err {
            assert(run_spec(steps, outcomes, m) == prev);
        }
        gathered_errors_stay(steps, outcomes, n, m - 1);
        let g1 = run_spec(steps, outcomes, n)->Ok_0;
        let g2 = prev->Ok_0;
        let g3 = run_spec(steps, outcomes, m)->Ok_0;
        assert(g3.errors.subrange(0, g2.errors.len() as int) == g2.errors) by {
            match steps[m - 1] {
                Step::Fail { .. } => {},
                Step::Fill { loc, .. } => {
                    match outcomes[m - 1] {
                        Ok(v) => {},
                        Err(ValError::LineErrors(es)) => {},
                        Err(_) => {},
                    }
                },
            }
            assert(g3.errors.subrange(0, g2.errors.len() as int) =~= g2.errors);
        }
        assert(g3.errors.subrange(0, g1.errors.len() as int) =~= g1.errors) by {
            assert(g3.errors.subrange(0, g1.errors.len() as int) =~= g3.errors.subrange(0, g2.errors.len() as int).subrange(
                0,
                g1.errors.len() as int,
            ));
        }
    } else {
        assert(run_spec(steps, outcomes, m)->Ok_0.errors.subrange(0, run_spec(steps, outcomes, n)->Ok_0.errors.len() as int)
            =~= run_spec(steps, outcomes, n)->Ok_0.errors);
    }
}

/// A validation in which some step puts an error into the result fails, whatever the
/// other steps give: no validation succeeds past an error.
pub proof fn reported_error_fails<T>(
    steps: Seq<Step>,
    outcomes: Seq<Result<T, ValError>>,
    i: int,
    out: Result<Gathered<T>, ValError>,
)
    requires
        outcomes.len() == steps.len(),
        0 <= i < steps.len(),
        reports_error(steps[i], outcomes[i]),
        finished(run_spec(steps, outcomes, steps.len() as int), out),
    ensures
        out is Err,
{
    let n = steps.len() as int;
    if run_spec(steps, outcomes, i + 1) is Err {
        lemma_run_spec_err(steps, outcomes, i + 1, n);
    } else {
        let g = run_spec(steps, outcomes, i)->Ok_0;
        let g1 = run_spec(steps, outcomes, i + 1)->Ok_0;
        assert(g1.errors.len() > 0) by {
            match steps[i] {
                Step::Fail { .. } => {},
                Step::Fill { loc, .. } => {
                    match outcomes[i] {
                        Ok(v) => {},
                        Err(ValError::LineErrors(es)) => {
                            assert(located(es@, loc).len() == es@.len());
                        },
                        Err(_) => {},
                    }
                },
            }
        }
        if run_spec(steps, outcomes, n) is Ok {
            gathered_errors_stay(steps, outcomes, i + 1, n);
        }
    }
}

/// Where every step validates a value and every inner validation succeeds, the run
/// succeeds and gathers no error.
pub proof fn all_valid_gathers_no_errors<T>(steps: Seq<Step>, outcomes: Seq<Result<T, ValError>>, n: int)
    requires
        0 <= n <= steps.len(),
        outcomes.len() == steps.len(),
        forall|k: int| 0 <= k < n ==> (#[trigger] steps[k]) is Fill && outcomes[k] is Ok,
    ensures
        run_spec(steps, outcomes, n) matches Ok(g) && g.errors.len() == 0,
    decreases n,
{
    if n > 0 {
        all_valid_gathers_no_errors(steps, outcomes, n - 1);
        assert(steps[n - 1] is Fill);
    }
}

/// The names that the first `n` steps mark as set: those of the filled values placed
/// under a key of the output or of the extras, where the step marks them.
pub open spec fn marked_names(steps: Seq<Step>, n: int) -> Seq<String>
    decreases n,
{
    if n <= 0 {
        Seq::empty()
    } else {
        marked_names(steps, n - 1) + match steps[n - 1] {
            Step::Fill { target, mark_set, .. } => if mark_set {
                match target {
                    Target::Dict(k) => seq![k],
                    Target::Extra(k) => seq![k],
                    _ => Seq::empty(),
                }
            } else {
                Seq::empty()
            },
            Step::Fail { .. } => Seq::empty(),
        }
    }
}

/// The names marked by `a` followed by `b` are those marked by `a`, then by `b`.
pub proof fn marked_names_append(a: Seq<Step>, b: Seq<Step>, n: int)
    requires
        0 <= n <= b.len(),
    ensures
        marked_names(a + b, a.len() + n) == marked_names(a, a.len() as int) + marked_names(b, n),
    decreases n,
{
    if n == 0 {
        lemma_marked_prefix(a + b, a, a.len() as int);
        assert(marked_names(a, a.len() as int) + marked_names(b, 0) =~= marked_names(a, a.len() as int));
    } else {
        marked_names_append(a, b, n - 1);
        assert((a + b)[a.len() + n - 1] == b[n - 1]);
        assert(marked_names(a + b, a.len() + n) =~= marked_names(a, a.len() as int) + marked_names(b, n));
    }
}

proof fn lemma_marked_prefix(a: Seq<Step>, b: Seq<Step>, n: int)
    requires
        0 <= n <= b.len(),
        b.len() <= a.len(),
        forall|j: int| 0 <= j < b.len() ==> #[trigger] a[j] == b[j],
    ensures
        marked_names(a, n) == marked_names(b, n),
    decreases n,
{
    if n > 0 {
        lemma_marked_prefix(a, b, n - 1);
    }
}

/// Where every step that validates a value succeeds, the run succeeds, whatever errors the
/// plan itself found, and the names it marks as set are those that its steps mark, in order.
pub proof fn valid_values_mark_their_names<T>(steps: Seq<Step>, outcomes: Seq<Result<T, ValError>>, n: int)
    requires
        0 <= n <= steps.len(),
        outcomes.len() == steps.len(),
        forall|k: int| 0 <= k < n && (#[trigger] steps[k]) is Fill ==> outcomes[k] is Ok,
    ensures
        run_spec(steps, outcomes, n) matches Ok(g) && g.fields_set == marked_names(steps, n),
    decreases n,
{
    if n > 0 {
        valid_values_mark_their_names(steps, outcomes, n - 1);
        let g = run_spec(steps, outcomes, n - 1)->Ok_0;
        match steps[n - 1] {
            Step::Fail { .. } => {
                assert(marked_names(steps, n) =~= marked_names(steps, n - 1));
            },
            Step::Fill { target, mark_set, .. } => {
                assert(outcomes[n - 1] is Ok);
                let g2 = run_spec(steps, outcomes, n)->Ok_0;
                assert(g2.fields_set =~= marked_names(steps, n));
            },
        }
    }
}

fn place_value<T>(g: &mut Gathered<T>, target: Target, v: T, mark_set: bool)
    ensures
        final(g)@ == place(old(g)@, target, v, mark_set),
{
    let ghost t = target;
    let key = match target {
        Target::Args => {
            g.args.push(v);
            None
        },
        Target::Dict(k) => {
            let kk = k.clone();
            g.dict.push((k, v));
            Some(kk)
        },
        Target::Extra(k) => {
            let kk = k.clone();
            g.extra.push((k, v));
            Some(kk)
        },
        Target::InitOnly(k) => {
            g.init_only.push((k, v));
            None
        },
        Target::Merge => {
            g.merged.push(v);
            None
        },
        Target::Drop => None,
    };
    if mark_set {
        if let Some(k) = key {
            g.fields_set.push(k);
        }
    }
    proof {
        assert(final(g)@ =~= place(old(g)@, t, v, mark_set)) by {
            assert(final(g)@.errors =~= old(g)@.errors);
        }
    }
}

/// Runs `steps` with their `outcomes` (one for each step, in the same order; that of a
/// `Fail` step is not looked at), gathering the validated values and the errors.
pub fn run_plan<T>(steps: Vec<Step>, outcomes: Vec<Result<T, ValError>>) -> (r: Result<Gathered<T>, ValError>)
    requires
        outcomes.len() == steps.len(),
    ensures
        result_view(r) == run_spec(steps@, outcomes@, steps.len() as int),
{
    let ghost all_steps = steps@;
    let ghost all_outcomes = outcomes@;
    let mut g = Gathered {
        args: Vec::new(),
        dict: Vec::new(),
        extra: Vec::new(),
        init_only: Vec::new(),
        merged: Vec::new(),
        fields_set: Vec::new(),
        errors: Vec::new(),
    };
    proof {
        assert(g@ =~= empty_gathered::<T>());
        assert(g@.errors =~= empty_gathered::<T>().errors);
        assert(g@.error_inputs =~= empty_gathered::<T>().error_inputs);
    }
    let mut rest_steps = steps;
    let mut rest_outcomes = outcomes;
    let ghost mut i: int = 0;
    while rest_steps.len() > 0
        invariant
            0 <= i <= all_steps.len(),
            all_steps == steps@,
            all_outcomes == outcomes@,
            all_outcomes.len() == all_steps.len(),
            rest_steps@ == all_steps.subrange(i, all_steps.len() as int),
            rest_outcomes@ == all_outcomes.subrange(i, all_outcomes.len() as int),
            run_spec(all_steps, all_outcomes, i) == Ok::<GatheredView<T>, ValError>(g@),
        decreases rest_steps.len(),
    {
        let step = rest_steps.remove(0);
        let outcome = rest_outcomes.remove(0);
        proof {
            assert(step == all_steps[i]);
            assert(outcome == all_outcomes[i]);
        }
        let ghost before = g@;
        match step {
            Step::Fail { error_type, loc, input } => {
                let e = ValLineError::new_at(error_type, loc, input);
                let ghost ev = (e.error_type, e.loc@);
                g.errors.push(e);
                proof {
                    assert(errors_view(g.errors@) =~= before.errors.push(ev));
                    assert(inputs_view(g.errors@) =~= before.error_inputs.push(input));
                }
            },
            Step::Fill { source, validator, target, loc, on_line_errors, skip_omit, mark_set } => {
                match outcome {
                    Ok(v) => {
                        place_value(&mut g, target, v, mark_set);
                    },
                    Err(ValError::LineErrors(es)) => {
                        if on_line_errors == OnLineErrors::Drop {
                        } else if on_line_errors == OnLineErrors::Collect {
                            let ghost esv = es@;
                            let mut es2 = match loc {
                                Some(l) => prefix_errors(es, &l),
                                None => es,
                            };
                            let ghost old_errors = g.errors@;
                            proof {
                                assert(inputs_view(es2@) == inputs_view(esv));
                            }
                            g.errors.append(&mut es2);
                            proof {
                                assert(errors_view(g.errors@) =~= errors_view(old_errors) + located(esv, loc));
                                assert(inputs_view(g.errors@) =~= inputs_view(old_errors) + inputs_view(esv));
                            }
                        } else {
                            proof {
                                assert(run_spec(all_steps, all_outcomes, i + 1) == step_spec(g@, all_steps[i], all_outcomes[i]));
                                assert(run_spec(all_steps, all_outcomes, i + 1) == Err::<GatheredView<T>, ValError>(ValError::LineErrors(es)));
                                lemma_run_spec_err(all_steps, all_outcomes, i + 1, all_steps.len() as int);
                            }
                            let r: Result<Gathered<T>, ValError> = Err(ValError::LineErrors(es));
                            proof {
                                assert(run_spec(all_steps, all_outcomes, all_steps.len() as int) == Err::<GatheredView<T>, ValError>(r->Err_0));
                            }
                            return r;
                        }
                    },
                    Err(ValError::Omit) => {
                        if !skip_omit {
                            proof {
                                lemma_run_spec_err(all_steps, all_outcomes, i + 1, all_steps.len() as int);
                            }
                            let r: Result<Gathered<T>, ValError> = Err(ValError::Omit);
                            proof {
                                assert(run_spec(all_steps, all_outcomes, all_steps.len() as int) == Err::<GatheredView<T>, ValError>(r->Err_0));
                            }
                            return r;
                        }
                    },
                    Err(e) => {
                        proof {
                            lemma_run_spec_err(all_steps, all_outcomes, i + 1, all_steps.len() as int);
                        }
                        let r: Result<Gathered<T>, ValError> = Err(e);
                        proof {
                            assert(run_spec(all_steps, all_outcomes, all_steps.len() as int) == Err::<GatheredView<T>, ValError>(r->Err_0));
                        }
                        return r;
                    },
                }
            },
        }
        proof {
            i = i + 1;
            assert(all_steps.subrange(i, all_steps.len() as int) =~= rest_steps@);
        }
    }
    proof {
        assert(i == all_steps.len());
    }
    Ok(g)
}

} // verus!
