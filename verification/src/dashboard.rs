//! What the operator's dashboard does with a key press or a turn of the
//! mouse wheel. Drawing and reading the terminal is the caller's part.

use crate::state::State;
use vstd::prelude::*;

verus! {

/// An event of the terminal, reduced to what the dashboard looks at.
#[derive(Debug, Clone, Copy, PartialEq, Eq, Structural)]
pub enum UiEvent {
    /// A character key, with or without the control key held.
    Key { code: char, control: bool },
    /// The wheel was turned down with the pointer in the given row.
    ScrollDown { row: u16 },
    /// The wheel was turned up with the pointer in the given row.
    ScrollUp { row: u16 },
    /// Anything else.
    Other,
}

/// What the dashboard does in answer.
#[derive(Debug, Clone, Copy, PartialEq, Eq, Structural)]
pub enum UiAction {
    /// Ask the proxy to shut down.
    Shutdown,
    /// Page the log pane forward.
    LogsNextPage,
    /// Page the log pane back.
    LogsPrevPage,
    /// Move the traffic table one row down.
    TableNext,
    /// Move the traffic table one row up.
    TablePrev,
    /// Nothing.
    Nothing,
}

/// The answer to an event: control with `c` (or with the key that stands
/// in its place on a Spanish layout) asks for shutdown; the wheel pages the
/// log pane while the pointer is in one of its rows, the pane being the top
/// `logs_height` rows and the one after, and moves the traffic table
/// otherwise.
pub open spec fn action_for(event: UiEvent, logs_height: u16) -> UiAction {
    match event {
        UiEvent::Key { code, control } => if control && (code == 'c' || code == '\u{d1}') {
            UiAction::Shutdown
        } else {
            UiAction::Nothing
        },
        UiEvent::ScrollDown { row } => if row <= logs_height {
            UiAction::LogsNextPage
        } else {
            UiAction::TableNext
        },
        UiEvent::ScrollUp { row } => if row <= logs_height {
            UiAction::LogsPrevPage
        } else {
            UiAction::TablePrev
        },
        UiEvent::Other => UiAction::Nothing,
    }
}

/// Decides what the dashboard does with an event, and sets the shutdown
/// flag of the store where the answer is to shut down.
pub fn handle_event(state: &mut State, event: UiEvent, logs_height: u16) -> (action: UiAction)
    ensures
        action == action_for(event, logs_height),
        final(state)@ == if action == UiAction::Shutdown {
            old(state)@.mark_shutdown()
        } else {
            old(state)@
        },
        old(state).wf() ==> final(state).wf(),
{
    match event {
        UiEvent::Key { code, control } => {
            if control && (code == 'c' || code == '\u{d1}') {
                state.shutdown();
                UiAction::Shutdown
            } else {
                UiAction::Nothing
            }
        },
        UiEvent::ScrollDown { row } => {
            if row <= logs_height {
                UiAction::LogsNextPage
            } else {
                UiAction::TableNext
            }
        },
        UiEvent::ScrollUp { row } => {
            if row <= logs_height {
                UiAction::LogsPrevPage
            } else {
                UiAction::TablePrev
            }
        },
        UiEvent::Other => UiAction::Nothing,
    }
}

} // verus!
