use blue_gear::address::Address;
use blue_gear::app::{App, Lifecycle};
use blue_gear::finder::{Control, Finder, Phase, Signal, Step};
use blue_gear::keys::{handle_input, handle_key, Key, KeyResponse, ReaderAction, ToggleWait};

fn app_with_names(n: u8) -> App {
    let mut app = App::new();
    let mut names = Vec::new();
    for i in 0..n {
        app.add_device(Address { octets: [9, 9, 9, 9, 9, i] });
        names.push(Some(format!("dev{}", i)));
    }
    app.device_information(names);
    app
}

#[test]
fn key_table() {
    let mut app = App::new();
    assert_eq!(handle_key(&mut app, Key::Tab), Some(KeyResponse::ToggleRequested));
    assert_eq!(handle_key(&mut app, Key::Down), Some(KeyResponse::Moved));
    assert_eq!(handle_key(&mut app, Key::Char('j')), Some(KeyResponse::Moved));
    assert_eq!(handle_key(&mut app, Key::Up), Some(KeyResponse::Moved));
    assert_eq!(handle_key(&mut app, Key::Char('k')), Some(KeyResponse::Moved));
    assert_eq!(handle_key(&mut app, Key::Char('Q')), None);
    assert_eq!(handle_key(&mut app, Key::Char('J')), None);
    assert_eq!(handle_key(&mut app, Key::Other), None);
    assert_eq!(app.lifecycle(), Lifecycle::Running);
    assert_eq!(handle_key(&mut app, Key::Char('q')), Some(KeyResponse::Quit));
    assert_eq!(app.lifecycle(), Lifecycle::ShuttingDown);
}

#[test]
fn movement_keys_move_the_selection() {
    let mut app = app_with_names(2);
    handle_key(&mut app, Key::Char('j'));
    assert_eq!(app.selected_device(), Some(0));
    handle_key(&mut app, Key::Down);
    assert_eq!(app.selected_device(), Some(1));
    handle_key(&mut app, Key::Char('k'));
    assert_eq!(app.selected_device(), Some(0));
    handle_key(&mut app, Key::Up);
    assert_eq!(app.selected_device(), None);
}

#[test]
fn tab_leaves_the_session_alone() {
    let mut app = app_with_names(1);
    handle_key(&mut app, Key::Char('j'));
    handle_key(&mut app, Key::Tab);
    assert_eq!(app.selected_device(), Some(0));
    assert!(!app.status());
    assert_eq!(app.lifecycle(), Lifecycle::Running);
}

#[test]
fn input_actions() {
    let mut app = app_with_names(1);
    assert_eq!(handle_input(&mut app, Some(Key::Other)), ReaderAction::Continue);
    assert_eq!(handle_input(&mut app, Some(Key::Down)), ReaderAction::Redraw);
    assert_eq!(handle_input(&mut app, Some(Key::Tab)), ReaderAction::ConfirmToggle);
    assert_eq!(app.lifecycle(), Lifecycle::Running);
    assert_eq!(handle_input(&mut app, Some(Key::Char('q'))), ReaderAction::Shutdown);
    assert_eq!(app.lifecycle(), Lifecycle::ShuttingDown);
}

#[test]
fn end_of_input_counts_as_quit() {
    let mut app = App::new();
    assert_eq!(handle_input(&mut app, None), ReaderAction::Shutdown);
    assert_eq!(app.lifecycle(), Lifecycle::ShuttingDown);
}

#[test]
fn toggle_wait_retries_until_the_state_changes() {
    let mut app = App::new();
    let (wait, first) = ToggleWait::begin(&app);
    assert_eq!(first, Control::ToggleRequest);
    assert!(!wait.snapshot);
    assert_eq!(wait.poll(&app), Some(Control::ToggleRetry));
    app.power_changed(true);
    assert_eq!(wait.poll(&app), None);
}

#[test]
fn tab_from_unpowered_powers_the_radio_once() {
    // The radio is off and nothing is listed.
    let mut app = App::new();
    let (mut finder, start) = Finder::new(app.status());
    assert_eq!(start, Step::Listen);
    assert_eq!(finder.phase, Phase::Idle);

    // Tab asks for a toggle and waits for it.
    assert_eq!(handle_input(&mut app, Some(Key::Tab)), ReaderAction::ConfirmToggle);
    let (wait, request) = ToggleWait::begin(&app);

    // The discovery task serves the request with one driver call; the
    // driver is stood in for by a counter of power settings.
    let mut set_powered_calls: Vec<bool> = Vec::new();
    let mut redraws = 0;
    let mut driver_powered = app.status();
    let mut step = finder.step(Signal::Message(request), driver_powered);
    loop {
        match step {
            Step::Toggle => {
                set_powered_calls.push(!driver_powered);
                driver_powered = !driver_powered;
                app.power_changed(driver_powered);
                redraws += 1;
            }
            Step::StartSearch => break,
            Step::Listen | Step::Stop => {}
        }
        if finder.phase != Phase::Draining {
            break;
        }
        step = finder.step(Signal::Empty, driver_powered);
    }
    assert_eq!(set_powered_calls, vec![true]);
    assert!(app.status());
    assert_eq!(finder.phase, Phase::Searching);
    assert!(redraws >= 1);
    assert_eq!(wait.poll(&app), None);
}

#[test]
fn quit_while_searching_stops_discovery() {
    let mut app = App::new();
    app.set_status(true);
    let (mut finder, start) = Finder::new(app.status());
    assert_eq!(start, Step::StartSearch);
    assert_eq!(finder.phase, Phase::Searching);
    assert_eq!(handle_input(&mut app, Some(Key::Char('q'))), ReaderAction::Shutdown);
    assert_eq!(finder.step(Signal::Message(Control::Shutdown), true), Step::Stop);
    assert_eq!(finder.phase, Phase::Stopped);
}
