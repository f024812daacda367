//! The state that a validation carries down to inner validators: how deep it is, and
//! the `Extra` values (the data validated so far, the field being assigned, strictness,
//! the user's context), which a validator may rebind for its inner validators.
use vstd::prelude::*;

verus! {

/// The extra values of a validation; `P` stands for a Python object.
#[derive(Debug)]
pub struct Extra<P> {
    /// The data validated so far (or the model's data, when validating an assignment).
    pub data: Option<P>,
    /// The field being assigned to, when validating an assignment.
    pub field: Option<String>,
    /// Whether the validation is strict (where it says so).
    pub strict: Option<bool>,
    /// The user's context.
    pub context: Option<P>,
}

impl<P> Extra<P> {
    /// Extra values with the given strictness and context, and nothing else.
    pub fn new(strict: Option<bool>, context: Option<P>) -> (r: Self)
        ensures
            r.data is None,
            r.field is None,
            r.strict == strict,
            r.context == context,
    {
        Extra { data: None, field: None, strict, context }
    }

    /// The same values, in strict mode.
    pub fn as_strict(self) -> (r: Self)
        ensures
            r.data == self.data,
            r.field == self.field,
            r.strict == Some(true),
            r.context == self.context,
    {
        Extra { data: self.data, field: self.field, strict: Some(true), context: self.context }
    }
}

#[derive(Debug)]
pub struct ValidationState<P> {
    pub recursion_depth: u16,
    pub extra: Extra<P>,
}

/// What a rebinding kept: the extra values to restore.
#[derive(Debug)]
pub struct ValidationStateWithReboundExtra<P> {
    pub old_extra: Extra<P>,
}

/// The state with its extra values rebound to `extra`, at the same depth.
pub open spec fn rebound<P>(state: ValidationState<P>, extra: Extra<P>) -> ValidationState<P> {
    ValidationState { recursion_depth: state.recursion_depth, extra }
}

/// The state with the extra values that a rebinding kept put back, at the same depth.
pub open spec fn restored<P>(state: ValidationState<P>, kept: ValidationStateWithReboundExtra<P>) -> ValidationState<P> {
    ValidationState { recursion_depth: state.recursion_depth, extra: kept.old_extra }
}

/// The state one level deeper.
pub open spec fn deeper<P>(state: ValidationState<P>) -> ValidationState<P> {
    ValidationState { recursion_depth: (state.recursion_depth + 1) as u16, extra: state.extra }
}

/// The state one level back.
pub open spec fn shallower<P>(state: ValidationState<P>) -> ValidationState<P> {
    ValidationState { recursion_depth: (state.recursion_depth - 1) as u16, extra: state.extra }
}

impl<P> ValidationState<P> {
    pub fn new(extra: Extra<P>, recursion_depth: u16) -> (r: Self)
        ensures
            r.extra == extra,
            r.recursion_depth == recursion_depth,
    {
        ValidationState { recursion_depth, extra }
    }

    /// A state for other extra values at the same depth (for validating with them).
    pub fn with_new_extra(&self, extra: Extra<P>) -> (r: Self)
        ensures
            r.extra == extra,
            r.recursion_depth == self.recursion_depth,
    {
        ValidationState { recursion_depth: self.recursion_depth, extra }
    }

    /// Rebinds the extra values to `new_extra`, keeping the old ones to restore.
    pub fn rebind_extra(&mut self, new_extra: Extra<P>) -> (r: ValidationStateWithReboundExtra<P>)
        ensures
            *final(self) == rebound(*old(self), new_extra),
            r == (ValidationStateWithReboundExtra { old_extra: old(self).extra }),
    {
        let mut old_extra = new_extra;
        std::mem::swap(&mut old_extra, &mut self.extra);
        ValidationStateWithReboundExtra { old_extra }
    }

    /// Restores the extra values that a rebinding kept.
    pub fn restore_extra(&mut self, rebound: ValidationStateWithReboundExtra<P>)
        ensures
            *final(self) == restored(*old(self), rebound),
    {
        self.extra = rebound.old_extra;
    }

    /// Whether the validation is strict: as the extra values say, else `default`.
    pub fn strict_or(&self, default: bool) -> (r: bool)
        ensures
            r == (match self.extra.strict {
                Some(b) => b,
                None => default,
            }),
    {
        match self.extra.strict {
            Some(b) => b,
            None => default,
        }
    }

    /// One level deeper.
    pub fn incr_depth(&mut self) -> (r: u16)
        requires
            old(self).recursion_depth < u16::MAX,
        ensures
            *final(self) == deeper(*old(self)),
            r == old(self).recursion_depth + 1,
    {
        self.recursion_depth = self.recursion_depth + 1;
        self.recursion_depth
    }

    /// One level back.
    pub fn decr_depth(&mut self)
        requires
            old(self).recursion_depth > 0,
        ensures
            *final(self) == shallower(*old(self)),
    {
        self.recursion_depth = self.recursion_depth - 1;
    }
}

/// Rebinding the extra values and then restoring what the rebinding kept gives the state
/// back as it was.
pub proof fn rebind_then_restore<P>(state: ValidationState<P>, extra: Extra<P>)
    ensures
        restored(rebound(state, extra), ValidationStateWithReboundExtra { old_extra: state.extra }) == state,
{
}

/// Going one level deeper and then one level back gives the state back as it was.
pub proof fn descend_then_return<P>(state: ValidationState<P>)
    requires
        state.recursion_depth < u16::MAX,
    ensures
        shallower(deeper(state)) == state,
{
}

} // verus!
