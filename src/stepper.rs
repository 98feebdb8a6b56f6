//! The value behind a number input with step buttons, and the masking switch
//! of a one-time-code input: what a step or a toggle does to the state.
use vstd::prelude::*;

verus! {

/// A press of a number input's step buttons.
#[derive(Clone, Copy, Debug, PartialEq, Eq, Structural)]
pub enum StepAction {
    Increment,
    Decrement,
}

/// The new value of a signed number input after `action`; `None` where the
/// step would leave the range of `i64`, and the value stays as it was.
pub open spec fn step_i64_spec(v: i64, action: StepAction) -> Option<i64> {
    match action {
        StepAction::Increment => if v < i64::MAX {
            Some((v + 1) as i64)
        } else {
            None
        },
        StepAction::Decrement => if v > i64::MIN {
            Some((v - 1) as i64)
        } else {
            None
        },
    }
}

/// The new value of an unsigned number input after `action`; `None` where the
/// value stays as it was: a decrement at zero, or an increment at the top of
/// the range of `u64`.
pub open spec fn step_u64_spec(v: u64, action: StepAction) -> Option<u64> {
    match action {
        StepAction::Increment => if v < u64::MAX {
            Some((v + 1) as u64)
        } else {
            None
        },
        StepAction::Decrement => if v > 0 {
            Some((v - 1) as u64)
        } else {
            None
        },
    }
}

/// The new value of a signed number input after `action` (see `step_i64_spec`).
pub fn step_i64(v: i64, action: StepAction) -> (r: Option<i64>)
    ensures
        r == step_i64_spec(v, action),
{
    match action {
        StepAction::Increment => if v < i64::MAX {
            Some(v + 1)
        } else {
            None
        },
        StepAction::Decrement => if v > i64::MIN {
            Some(v - 1)
        } else {
            None
        },
    }
}

/// The new value of an unsigned number input after `action` (see
/// `step_u64_spec`).
pub fn step_u64(v: u64, action: StepAction) -> (r: Option<u64>)
    ensures
        r == step_u64_spec(v, action),
{
    match action {
        StepAction::Increment => if v < u64::MAX {
            Some(v + 1)
        } else {
            None
        },
        StepAction::Decrement => if v > 0 {
            Some(v - 1)
        } else {
            None
        },
    }
}

/// The state of the inputs whose values the page keeps: a signed and an
/// unsigned number input, whether the one-time code is masked, and the last
/// code entered.
pub struct InputState {
    pub signed_value: i64,
    pub unsigned_value: u64,
    pub code_masked: bool,
    pub code: Option<String>,
}

impl InputState {
    /// The state a page opens with: the signed input at one, the unsigned one
    /// at zero, the code masked and not yet entered.
    pub fn new() -> (r: InputState)
        ensures
            r.signed_value == 1,
            r.unsigned_value == 0,
            r.code_masked,
            r.code is None,
    {
        InputState { signed_value: 1, unsigned_value: 0, code_masked: true, code: None }
    }

    /// Applies a step to the signed input; returns whether the value changed
    /// (and the input must show the new value).
    pub fn step_signed(&mut self, action: StepAction) -> (changed: bool)
        ensures
            changed == (step_i64_spec(old(self).signed_value, action) is Some),
            changed ==> final(self).signed_value == step_i64_spec(
                old(self).signed_value,
                action,
            )->0,
            !changed ==> final(self).signed_value == old(self).signed_value,
            final(self).unsigned_value == old(self).unsigned_value,
            final(self).code_masked == old(self).code_masked,
            final(self).code == old(self).code,
    {
        match step_i64(self.signed_value, action) {
            Some(v) => {
                self.signed_value = v;
                true
            },
            None => false,
        }
    }

    /// Applies a step to the unsigned input; returns whether the value
    /// changed. A decrement at zero leaves it at zero.
    pub fn step_unsigned(&mut self, action: StepAction) -> (changed: bool)
        ensures
            changed == (step_u64_spec(old(self).unsigned_value, action) is Some),
            changed ==> final(self).unsigned_value == step_u64_spec(
                old(self).unsigned_value,
                action,
            )->0,
            !changed ==> final(self).unsigned_value == old(self).unsigned_value,
            final(self).signed_value == old(self).signed_value,
            final(self).code_masked == old(self).code_masked,
            final(self).code == old(self).code,
    {
        match step_u64(self.unsigned_value, action) {
            Some(v) => {
                self.unsigned_value = v;
                true
            },
            None => false,
        }
    }

    /// Flips whether the one-time code is masked; returns the new setting.
    pub fn toggle_code_masked(&mut self) -> (masked: bool)
        ensures
            masked == !old(self).code_masked,
            final(self).code_masked == masked,
            final(self).signed_value == old(self).signed_value,
            final(self).unsigned_value == old(self).unsigned_value,
            final(self).code == old(self).code,
    {
        self.code_masked = !self.code_masked;
        self.code_masked
    }

    /// Records the code the one-time-code input reports as changed.
    pub fn set_code(&mut self, code: String)
        ensures
            final(self).code == Some(code),
            final(self).signed_value == old(self).signed_value,
            final(self).unsigned_value == old(self).unsigned_value,
            final(self).code_masked == old(self).code_masked,
    {
        self.code = Some(code);
    }
}

} // verus!
