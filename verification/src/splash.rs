//! The progress of the client's start-up.

use vstd::prelude::*;
use vstd::string::*;

verus! {

/// How far the start-up has come, and what it is doing.
#[derive(Debug, Clone)]
pub struct SplashState {
    pub current_step: usize,
    pub total_steps: usize,
    pub message: String,
}

impl SplashState {
    /// The start: none of four steps done.
    pub fn new() -> (state: SplashState)
        ensures
            state.current_step == 0,
            state.total_steps == 4,
            state.message@ == "Initializing..."@,
    {
        SplashState { current_step: 0, total_steps: 4, message: String::from_str("Initializing...") }
    }

    /// Says what the start-up is doing now.
    pub fn set_message(&mut self, msg: &str)
        ensures
            final(self).message@ == msg@,
            final(self).current_step == old(self).current_step,
            final(self).total_steps == old(self).total_steps,
    {
        self.message = String::from_str(msg);
    }

    /// Counts one more step as done, but never more than there are.
    pub fn complete_step(&mut self)
        ensures
            final(self).current_step == if old(self).current_step < old(self).total_steps {
                old(self).current_step + 1
            } else {
                old(self).total_steps as int
            },
            final(self).total_steps == old(self).total_steps,
            final(self).message == old(self).message,
    {
        if self.current_step < self.total_steps {
            self.current_step = self.current_step + 1;
        } else {
            self.current_step = self.total_steps;
        }
    }
}

} // verus!
