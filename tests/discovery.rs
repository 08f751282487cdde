use blue_gear::app::App;
use blue_gear::finder::{Control, Finder, Phase, Signal, Step};
use blue_gear::keys::ToggleWait;

fn finder_in(phase: Phase) -> Finder {
    Finder { phase }
}

#[test]
fn starts_by_power_state() {
    let (on, on_step) = Finder::new(true);
    assert_eq!((on.phase, on_step), (Phase::Searching, Step::StartSearch));
    let (off, off_step) = Finder::new(false);
    assert_eq!((off.phase, off_step), (Phase::Idle, Step::Listen));
}

#[test]
fn shutdown_stops_every_phase() {
    for phase in [Phase::Searching, Phase::Idle, Phase::Draining, Phase::Stopped] {
        let mut f = finder_in(phase);
        assert_eq!(f.step(Signal::Message(Control::Shutdown), true), Step::Stop);
        assert_eq!(f.phase, Phase::Stopped);
    }
}

#[test]
fn both_requests_toggle_while_awaiting() {
    for phase in [Phase::Searching, Phase::Idle] {
        for msg in [Control::ToggleRequest, Control::ToggleRetry] {
            let mut f = finder_in(phase);
            assert_eq!(f.step(Signal::Message(msg), false), Step::Toggle);
            assert_eq!(f.phase, Phase::Draining);
        }
    }
}

#[test]
fn draining_serves_first_requests_and_skips_retries() {
    let mut f = finder_in(Phase::Draining);
    assert_eq!(f.step(Signal::Message(Control::ToggleRequest), true), Step::Toggle);
    assert_eq!(f.phase, Phase::Draining);
    assert_eq!(f.step(Signal::Message(Control::ToggleRetry), true), Step::Listen);
    assert_eq!(f.phase, Phase::Draining);
}

#[test]
fn draining_ends_by_power_state() {
    let mut f = finder_in(Phase::Draining);
    assert_eq!(f.step(Signal::Empty, true), Step::StartSearch);
    assert_eq!(f.phase, Phase::Searching);
    let mut g = finder_in(Phase::Draining);
    assert_eq!(g.step(Signal::Empty, false), Step::Listen);
    assert_eq!(g.phase, Phase::Idle);
    let mut h = finder_in(Phase::Draining);
    assert_eq!(h.step(Signal::Closed, false), Step::Listen);
    assert_eq!(h.phase, Phase::Idle);
}

#[test]
fn closed_channel() {
    let mut searching = finder_in(Phase::Searching);
    assert_eq!(searching.step(Signal::Closed, true), Step::Listen);
    assert_eq!(searching.phase, Phase::Draining);
    let mut idle = finder_in(Phase::Idle);
    assert_eq!(idle.step(Signal::Closed, false), Step::Stop);
    assert_eq!(idle.phase, Phase::Stopped);
}

#[test]
fn nothing_queued_keeps_waiting() {
    let mut f = finder_in(Phase::Idle);
    assert_eq!(f.step(Signal::Empty, false), Step::Listen);
    assert_eq!(f.phase, Phase::Idle);
}

#[test]
fn stopped_stays_stopped() {
    let mut f = finder_in(Phase::Stopped);
    assert_eq!(f.step(Signal::Message(Control::ToggleRequest), true), Step::Stop);
    assert_eq!(f.step(Signal::Empty, true), Step::Stop);
    assert_eq!(f.phase, Phase::Stopped);
}

#[test]
fn served_request_is_confirmed() {
    for powered in [false, true] {
        let mut app = App::new();
        app.set_status(powered);
        let (wait, request) = ToggleWait::begin(&app);
        let mut f = finder_in(if powered { Phase::Searching } else { Phase::Idle });
        assert_eq!(f.step(Signal::Message(request), powered), Step::Toggle);
        app.power_changed(!powered);
        assert_ne!(app.status(), wait.snapshot);
        assert_eq!(wait.poll(&app), None);
    }
}
