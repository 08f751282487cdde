use vstd::prelude::*;

use crate::app::{App, SessionView};
use crate::finder::{next, Control, Phase, Signal, Step};

verus! {

/// A key press, as far as the dashboard tells keys apart.
#[derive(Clone, Copy, Debug, PartialEq, Eq, Structural)]
pub enum Key {
    Char(char),
    Up,
    Down,
    Tab,
    Other,
}

/// What a handled key asks of the input task.
#[derive(Clone, Copy, Debug, PartialEq, Eq, Structural)]
pub enum KeyResponse {
    /// Stop reading keys and tell the discovery task to stop.
    Quit,
    /// The selection moved; the display is stale.
    Moved,
    /// Toggle the radio and wait until the toggle shows.
    ToggleRequested,
}

/// What the input task does after an input event.
#[derive(Clone, Copy, Debug, PartialEq, Eq, Structural)]
pub enum ReaderAction {
    /// Read the next key.
    Continue,
    /// Request a redraw, then read the next key.
    Redraw,
    /// Request a toggle of the radio and wait for it to be confirmed, then
    /// read the next key.
    ConfirmToggle,
    /// Send `Control::Shutdown` to the discovery task and stop reading.
    Shutdown,
}

pub open spec fn is_down(key: Key) -> bool {
    key == Key::Down || key == Key::Char('j')
}

pub open spec fn is_up(key: Key) -> bool {
    key == Key::Up || key == Key::Char('k')
}

/// The key table: `q` quits, `Tab` toggles the radio, `Down`/`j` and
/// `Up`/`k` move the selection, anything else is ignored.
pub open spec fn response_to(key: Key) -> Option<KeyResponse> {
    if key == Key::Char('q') {
        Some(KeyResponse::Quit)
    } else if key == Key::Tab {
        Some(KeyResponse::ToggleRequested)
    } else if is_down(key) || is_up(key) {
        Some(KeyResponse::Moved)
    } else {
        None
    }
}

/// The session after `key` is handled.
pub open spec fn after_key(v: SessionView, key: Key) -> SessionView {
    if key == Key::Char('q') {
        v.shut_down()
    } else if is_down(key) {
        v.moved_down()
    } else if is_up(key) {
        v.moved_up()
    } else {
        v
    }
}

/// The input task's next action; `None` stands for the end of input, which
/// counts as quitting.
pub open spec fn reader_action(input: Option<Key>) -> ReaderAction {
    match input {
        None => ReaderAction::Shutdown,
        Some(key) => match response_to(key) {
            None => ReaderAction::Continue,
            Some(KeyResponse::Quit) => ReaderAction::Shutdown,
            Some(KeyResponse::Moved) => ReaderAction::Redraw,
            Some(KeyResponse::ToggleRequested) => ReaderAction::ConfirmToggle,
        },
    }
}

/// The session after an input event; the end of input shuts it down.
pub open spec fn after_input(v: SessionView, input: Option<Key>) -> SessionView {
    match input {
        None => v.shut_down(),
        Some(key) => after_key(v, key),
    }
}

/// Applies `key` to the session and tells what else it asks for.
pub fn handle_key(app: &mut App, key: Key) -> (r: Option<KeyResponse>)
    ensures
        r == response_to(key),
        final(app)@ == after_key(old(app)@, key),
{
    proof {
        reveal_strlit("up");
        reveal_strlit("down");
        assert("down"@.len() != "up"@.len());
    }
    match key {
        Key::Char('q') => {
            app.request_shutdown();
            Some(KeyResponse::Quit)
        },
        Key::Tab => Some(KeyResponse::ToggleRequested),
        Key::Down | Key::Char('j') => {
            app.change_selection("down");
            Some(KeyResponse::Moved)
        },
        Key::Up | Key::Char('k') => {
            app.change_selection("up");
            Some(KeyResponse::Moved)
        },
        _ => None,
    }
}

/// Handles one input event of the input task: a key, or `None` at the end
/// of input.
pub fn handle_input(app: &mut App, input: Option<Key>) -> (r: ReaderAction)
    ensures
        r == reader_action(input),
        final(app)@ == after_input(old(app)@, input),
{
    match input {
        None => {
            app.request_shutdown();
            ReaderAction::Shutdown
        },
        Some(key) => match handle_key(app, key) {
            None => ReaderAction::Continue,
            Some(KeyResponse::Quit) => ReaderAction::Shutdown,
            Some(KeyResponse::Moved) => ReaderAction::Redraw,
            Some(KeyResponse::ToggleRequested) => ReaderAction::ConfirmToggle,
        },
    }
}

/// While a toggle has not shown yet, the request is sent again; once the
/// power state differs from `snapshot`, the toggle is confirmed.
pub open spec fn confirmation(snapshot: bool, current: bool) -> Option<Control> {
    if current != snapshot {
        None
    } else {
        Some(Control::ToggleRetry)
    }
}

/// The input task's wait for a toggle to be confirmed: the power state it
/// started from.
pub struct ToggleWait {
    pub snapshot: bool,
}

impl ToggleWait {
    /// Starts a wait from the session's power state; returns the request to
    /// send to the discovery task.
    pub fn begin(app: &App) -> (r: (ToggleWait, Control))
        ensures
            r.0.snapshot == app@.powered,
            r.1 == Control::ToggleRequest,
    {
        (ToggleWait { snapshot: app.status() }, Control::ToggleRequest)
    }

    /// Looks at the session again: `None` once the toggle is confirmed,
    /// else the message to send again.
    pub fn poll(&self, app: &App) -> (r: Option<Control>)
        ensures
            r == confirmation(self.snapshot, app@.powered),
    {
        if app.status() != self.snapshot {
            None
        } else {
            Some(Control::ToggleRetry)
        }
    }
}

/// A served toggle request is confirmed: in every phase but the last, a
/// first toggle request makes the discovery task toggle; once the driver
/// has confirmed it and the session records it, the power state read under
/// the lock differs from the one the input task started its wait from, so
/// the wait ends.
pub proof fn lemma_toggle_confirmed(phase: Phase, v: SessionView, powered: bool)
    requires
        phase != Phase::Stopped,
    ensures
        next(phase, Signal::Message(Control::ToggleRequest), powered).1 == Step::Toggle,
        v.toggled().powered != v.powered,
        confirmation(v.powered, v.toggled().powered) is None,
{
}

} // verus!
