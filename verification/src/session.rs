//! How a front end drives the machine: running, paused, stepping or halted.

use vstd::prelude::*;

verus! {

/// What the front end does with the machine from frame to frame.
#[derive(Debug, Clone, Copy, PartialEq, Eq, Structural)]
pub enum ExecutionState {
    /// Nothing runs until the user asks for it.
    Pause,
    /// Instructions run at the configured rate.
    Continue,
    /// One instruction runs, then the machine pauses.
    RunNext,
    /// An instruction failed; nothing runs until the program is reloaded.
    Halt,
}

/// A control that the user can operate while the machine is inspected.
#[derive(Debug, Clone, Copy, PartialEq, Eq, Structural)]
pub enum Control {
    /// Run one instruction.
    Next,
    /// Run freely.
    Continue,
    /// Stop running.
    Pause,
    /// Reload the program after a failure.
    Reload,
}

impl ExecutionState {
    /// Whether `control` is on offer in this state: a paused machine can
    /// step or run, a running one can pause, a halted one can reload.
    pub open spec fn spec_offers(self, control: Control) -> bool {
        match (self, control) {
            (ExecutionState::Pause, Control::Next) => true,
            (ExecutionState::Pause, Control::Continue) => true,
            (ExecutionState::Continue, Control::Pause) => true,
            (ExecutionState::Halt, Control::Reload) => true,
            _ => false,
        }
    }

    /// The state after the user operated `control`; a control that is not
    /// on offer changes nothing.
    pub open spec fn spec_after_control(self, control: Control) -> ExecutionState {
        if !self.spec_offers(control) {
            self
        } else {
            match control {
                Control::Next => ExecutionState::RunNext,
                Control::Continue => ExecutionState::Continue,
                Control::Pause => ExecutionState::Pause,
                Control::Reload => ExecutionState::Pause,
            }
        }
    }

    /// How many instructions run in a frame in which `due` are due.
    pub open spec fn spec_cycles(self, due: u32) -> u32 {
        match self {
            ExecutionState::Continue => due,
            ExecutionState::RunNext => 1,
            _ => 0,
        }
    }

    /// The state once the instructions of a frame have run.
    pub open spec fn spec_after_frame(self) -> ExecutionState {
        match self {
            ExecutionState::RunNext => ExecutionState::Pause,
            _ => self,
        }
    }

    /// The state after a whole reset: paused while the machine is inspected.
    pub open spec fn spec_after_reset(self, debug_mode: bool) -> ExecutionState {
        if debug_mode {
            ExecutionState::Pause
        } else {
            self
        }
    }

    /// Whether `control` is on offer in this state.
    #[verifier::when_used_as_spec(spec_offers)]
    pub fn offers(self, control: Control) -> (r: bool)
        ensures
            r == self.spec_offers(control),
    {
        match (self, control) {
            (ExecutionState::Pause, Control::Next) => true,
            (ExecutionState::Pause, Control::Continue) => true,
            (ExecutionState::Continue, Control::Pause) => true,
            (ExecutionState::Halt, Control::Reload) => true,
            _ => false,
        }
    }

    /// The state after the user operated `control`.
    #[verifier::when_used_as_spec(spec_after_control)]
    pub fn after_control(self, control: Control) -> (r: ExecutionState)
        ensures
            r == self.spec_after_control(control),
    {
        if !self.offers(control) {
            return self;
        }
        match control {
            Control::Next => ExecutionState::RunNext,
            Control::Continue => ExecutionState::Continue,
            Control::Pause => ExecutionState::Pause,
            Control::Reload => ExecutionState::Pause,
        }
    }

    /// How many instructions to run in a frame in which `due` are due.
    #[verifier::when_used_as_spec(spec_cycles)]
    pub fn cycles(self, due: u32) -> (r: u32)
        ensures
            r == self.spec_cycles(due),
    {
        match self {
            ExecutionState::Continue => due,
            ExecutionState::RunNext => 1,
            _ => 0,
        }
    }

    /// The state once the instructions of a frame have run.
    #[verifier::when_used_as_spec(spec_after_frame)]
    pub fn after_frame(self) -> (r: ExecutionState)
        ensures
            r == self.spec_after_frame(),
    {
        match self {
            ExecutionState::RunNext => ExecutionState::Pause,
            _ => self,
        }
    }

    /// The state after an instruction failed: halted, whatever it was.
    pub fn after_fault(self) -> (r: ExecutionState)
        ensures
            r == ExecutionState::Halt,
    {
        ExecutionState::Halt
    }

    /// The state after a whole reset.
    #[verifier::when_used_as_spec(spec_after_reset)]
    pub fn after_reset(self, debug_mode: bool) -> (r: ExecutionState)
        ensures
            r == self.spec_after_reset(debug_mode),
    {
        if debug_mode {
            ExecutionState::Pause
        } else {
            self
        }
    }
}

/// A halted machine runs nothing, and only a reload gets it going again.
pub proof fn law_halt_holds(control: Control, due: u32)
    ensures
        ExecutionState::Halt.cycles(due) == 0,
        ExecutionState::Halt.after_frame() == ExecutionState::Halt,
        control != Control::Reload ==> ExecutionState::Halt.after_control(control)
            == ExecutionState::Halt,
        ExecutionState::Halt.after_control(Control::Reload) == ExecutionState::Pause,
{
}

/// Stepping runs exactly one instruction and pauses again.
pub proof fn law_step_runs_one(due: u32)
    ensures
        ExecutionState::Pause.after_control(Control::Next).cycles(due) == 1,
        ExecutionState::Pause.after_control(Control::Next).after_frame() == ExecutionState::Pause,
{
}

} // verus!
