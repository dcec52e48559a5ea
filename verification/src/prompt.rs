//! A prompt that asks again after a bad answer, a bounded number of times.
//!
//! The prompt waits for input, validates it, and is then either done or
//! waiting again. After as many refused answers as its limit allows it gives
//! up: no prompt runs for ever.

use vstd::prelude::*;

verus! {

/// Where a prompt stands.
#[derive(Clone, Copy, Debug, PartialEq, Eq, Structural)]
pub enum PromptState {
    /// Nothing has been entered yet.
    AwaitingInput,
    /// An answer has been entered and is being looked at.
    Validating,
    /// The answer was good; the prompt is done.
    Accepted,
    /// The answer was refused; the prompt asks again.
    Retry,
    /// The last answer that the limit allows was refused; the prompt is done.
    Abandoned,
}

/// A prompt with a limit on the answers it takes.
pub struct Prompt {
    state: PromptState,
    answers: u32,
    limit: u32,
}

/// Whether a prompt in `state` takes no further answer.
pub open spec fn finished(state: PromptState) -> bool {
    state is Accepted || state is Abandoned
}

/// The state after an answer was entered in `state`.
pub open spec fn entered(state: PromptState) -> PromptState {
    if state is AwaitingInput || state is Retry {
        PromptState::Validating
    } else {
        state
    }
}

/// The state after the answer under validation was found good or bad, as
/// the `answers`-th of at most `limit`.
pub open spec fn judged(state: PromptState, answers: nat, limit: nat, good: bool) -> PromptState {
    if !(state is Validating) {
        state
    } else if good {
        PromptState::Accepted
    } else if answers < limit {
        PromptState::Retry
    } else {
        PromptState::Abandoned
    }
}

impl Prompt {
    #[verifier::type_invariant]
    spec fn within_limit(self) -> bool {
        &&& self.answers <= self.limit
        &&& self.state is AwaitingInput ==> self.answers == 0 && self.limit >= 1
        &&& self.state is Validating ==> self.answers >= 1
        &&& self.state is Retry ==> 1 <= self.answers < self.limit
        &&& self.state is Abandoned ==> self.answers == self.limit
    }

    /// Where the prompt stands.
    pub closed spec fn state(&self) -> PromptState {
        self.state
    }

    /// The number of answers entered so far.
    pub closed spec fn answers(&self) -> nat {
        self.answers as nat
    }

    /// The number of answers the prompt takes at most.
    pub closed spec fn limit(&self) -> nat {
        self.limit as nat
    }

    /// A prompt that takes up to `limit` answers. With a limit of zero it
    /// has given up before it asks.
    pub fn new(limit: u32) -> (prompt: Prompt)
        ensures
            prompt.limit() == limit,
            prompt.answers() == 0,
            prompt.state() == if limit == 0 {
                PromptState::Abandoned
            } else {
                PromptState::AwaitingInput
            },
    {
        if limit == 0 {
            Prompt { state: PromptState::Abandoned, answers: 0, limit }
        } else {
            Prompt { state: PromptState::AwaitingInput, answers: 0, limit }
        }
    }

    /// Where the prompt stands.
    pub fn current(&self) -> (state: PromptState)
        ensures
            state == self.state(),
            self.answers() <= self.limit(),
            state is Retry ==> self.answers() < self.limit(),
    {
        proof {
            use_type_invariant(self);
        }
        self.state
    }

    /// The number of answers entered so far.
    pub fn attempts(&self) -> (n: u32)
        ensures
            n == self.answers(),
            n <= self.limit(),
    {
        proof {
            use_type_invariant(self);
        }
        self.answers
    }

    /// Whether the prompt takes no further answer.
    pub fn is_finished(&self) -> (done: bool)
        ensures
            done == finished(self.state()),
    {
        match self.state {
            PromptState::Accepted | PromptState::Abandoned => true,
            _ => false,
        }
    }

    /// Records that an answer was entered. A prompt that is not waiting for
    /// one stays as it is.
    pub fn enter(&mut self)
        ensures
            final(self).state() == entered(old(self).state()),
            final(self).limit() == old(self).limit(),
            final(self).answers() == if old(self).state() is AwaitingInput || old(
                self,
            ).state() is Retry {
                old(self).answers() + 1
            } else {
                old(self).answers()
            },
    {
        proof {
            use_type_invariant(&*self);
        }
        match self.state {
            PromptState::AwaitingInput | PromptState::Retry => {
                *self = Prompt {
                    state: PromptState::Validating,
                    answers: self.answers + 1,
                    limit: self.limit,
                };
            },
            _ => {},
        }
    }

    /// Records whether the answer under validation was good. A prompt that
    /// is not validating stays as it is.
    pub fn judge(&mut self, good: bool)
        ensures
            final(self).state() == judged(
                old(self).state(),
                old(self).answers(),
                old(self).limit(),
                good,
            ),
            final(self).limit() == old(self).limit(),
            final(self).answers() == old(self).answers(),
    {
        proof {
            use_type_invariant(&*self);
        }
        match self.state {
            PromptState::Validating => {
                let next = if good {
                    PromptState::Accepted
                } else if self.answers < self.limit {
                    PromptState::Retry
                } else {
                    PromptState::Abandoned
                };
                *self = Prompt { state: next, answers: self.answers, limit: self.limit };
            },
            _ => {},
        }
    }
}

/// The answer that fills the limit ends the prompt, good or bad: no prompt
/// takes more answers than its limit.
pub proof fn law_prompt_is_bounded(limit: nat, good: bool)
    ensures
        finished(judged(PromptState::Validating, limit, limit, good)),
{
}

/// A prompt that is done stays done, whatever is entered or judged.
pub proof fn law_done_is_done(state: PromptState, answers: nat, limit: nat, good: bool)
    requires
        finished(state),
    ensures
        entered(state) == state,
        judged(state, answers, limit, good) == state,
{
}

} // verus!
