//! The debug toolbar: the status it shows and which of its buttons can be
//! pressed in each state.

use crate::debugger::session::DebugState;
use vstd::prelude::*;

verus! {

/// The status text of a state.
pub fn state_label(state: DebugState) -> (r: &'static str)
    ensures
        state == DebugState::Stopped ==> r@ == "Stopped"@,
        state == DebugState::Running ==> r@ == "Running"@,
        state == DebugState::Paused ==> r@ == "Paused"@,
        state == DebugState::Stepping ==> r@ == "Stepping"@,
{
    match state {
        DebugState::Stopped => "Stopped",
        DebugState::Running => "Running",
        DebugState::Paused => "Paused",
        DebugState::Stepping => "Stepping",
    }
}

/// Which toolbar buttons can be pressed.
#[derive(Debug, Clone, Copy, PartialEq, Eq)]
pub struct ToolbarButtons {
    pub continue_enabled: bool,
    pub step_over_enabled: bool,
    pub step_into_enabled: bool,
    pub step_out_enabled: bool,
    pub stop_enabled: bool,
    pub restart_enabled: bool,
}

/// The buttons of a state: continue, stop and restart need a program that
/// is not stopped; the steps need one that is paused or stepping.
pub fn toolbar_buttons(state: DebugState) -> (r: ToolbarButtons)
    ensures
        r.continue_enabled == (state != DebugState::Stopped),
        r.stop_enabled == (state != DebugState::Stopped),
        r.restart_enabled == (state != DebugState::Stopped),
        r.step_over_enabled == (state == DebugState::Paused || state == DebugState::Stepping),
        r.step_into_enabled == r.step_over_enabled,
        r.step_out_enabled == r.step_over_enabled,
{
    let is_stopped = state == DebugState::Stopped;
    let is_paused = state == DebugState::Paused || state == DebugState::Stepping;
    ToolbarButtons {
        continue_enabled: !is_stopped,
        step_over_enabled: is_paused,
        step_into_enabled: is_paused,
        step_out_enabled: is_paused,
        stop_enabled: !is_stopped,
        restart_enabled: !is_stopped,
    }
}

} // verus!
