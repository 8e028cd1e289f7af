use churro_cli::app::{App, AppReturn, CommandOutcome};
use churro_cli::inputs::{InputEvent, Key};
use churro_cli::io::IoEvent;
use churro_cli::state::Token;

#[test]
fn quit_key_exits_in_one_step_regardless_of_phase() {
    // fresh controller: only quit is bound, state uninitialized
    let mut app = App::new();
    assert_eq!(
        app.actions().actions().to_vec(),
        vec![churro_cli::actions::Action::Quit]
    );
    let (ret, cmd) = app.do_action(Key::Char('q'));
    assert_eq!(ret, AppReturn::Exit);
    assert_eq!(cmd, None);

    // the other quit binding, after initialization
    let mut app = App::new();
    app.complete_command(CommandOutcome::Initialized);
    let (ret, cmd) = app.do_action(Key::Ctrl('c'));
    assert_eq!(ret, AppReturn::Exit);
    assert_eq!(cmd, None);
}

#[test]
fn initialize_command_establishes_the_ready_state() {
    let mut app = App::new();
    let cmd = app.dispatch(IoEvent::Initialize);
    assert_eq!(cmd, IoEvent::Initialize);
    assert!(app.is_loading());
    app.complete_command(CommandOutcome::Initialized);
    assert!(!app.is_loading());
    assert!(app.state().is_initialized());
    assert_eq!(app.state().duration(), Some(1));
    assert_eq!(app.state().count_sleep(), Some(0));
    assert_eq!(app.state().count_tick(), Some(0));
    assert!(!app.state().is_authenticated());
    // the registry swap: all four actions are now active
    assert_eq!(app.actions().actions().len(), 4);
}

#[test]
fn failed_login_leaves_state_unchanged_and_clears_loading() {
    let mut app = App::new();
    app.complete_command(CommandOutcome::Initialized);
    let cmd = app.dispatch(IoEvent::Login);
    assert_eq!(cmd, IoEvent::Login);
    assert!(app.is_loading());
    app.complete_command(CommandOutcome::LoginFailed);
    assert!(!app.is_loading());
    assert!(app.state().is_initialized());
    assert!(!app.state().is_authenticated());
    assert_eq!(app.state().duration(), Some(1));
    assert_eq!(app.state().count_sleep(), Some(0));
}

#[test]
fn successful_login_stores_the_token() {
    let mut app = App::new();
    app.complete_command(CommandOutcome::Initialized);
    app.dispatch(IoEvent::Login);
    app.complete_command(CommandOutcome::LoggedIn(Token {
        access_token: String::from("t-2"),
    }));
    assert!(!app.is_loading());
    assert!(app.state().is_authenticated());
}

#[test]
fn sleep_key_queues_a_command_only_once_initialized() {
    let mut app = App::new();
    // before initialization the sleep key is not even bound
    let (ret, cmd) = app.do_action(Key::Char('s'));
    assert_eq!(ret, AppReturn::Continue);
    assert_eq!(cmd, None);
    assert!(!app.is_loading());

    app.complete_command(CommandOutcome::Initialized);
    let (ret, cmd) = app.do_action(Key::Char('s'));
    assert_eq!(ret, AppReturn::Continue);
    assert_eq!(cmd, Some(IoEvent::Sleep(1)));
    assert!(app.is_loading());
}

#[test]
fn sleep_command_completion_counts_the_sleep() {
    let mut app = App::new();
    app.complete_command(CommandOutcome::Initialized);
    app.dispatch(IoEvent::Sleep(1));
    app.complete_command(CommandOutcome::Slept);
    assert!(!app.is_loading());
    assert_eq!(app.state().count_sleep(), Some(1));
}

#[test]
fn delay_keys_adjust_the_delay_directly() {
    let mut app = App::new();
    app.complete_command(CommandOutcome::Initialized);
    let (ret, cmd) = app.do_action(Key::Char('i'));
    assert_eq!(ret, AppReturn::Continue);
    assert_eq!(cmd, None);
    assert_eq!(app.state().duration(), Some(2));
    let (ret, _) = app.do_action(Key::Char('d'));
    assert_eq!(ret, AppReturn::Continue);
    assert_eq!(app.state().duration(), Some(1));
    // lowering from the floor saturates
    app.do_action(Key::Char('d'));
    assert_eq!(app.state().duration(), Some(1));
}

#[test]
fn unbound_keys_are_ignored() {
    let mut app = App::new();
    app.complete_command(CommandOutcome::Initialized);
    let (ret, cmd) = app.do_action(Key::Char('x'));
    assert_eq!(ret, AppReturn::Continue);
    assert_eq!(cmd, None);
    assert_eq!(app.state().count_tick(), Some(0));
}

#[test]
fn ticks_count_only_once_initialized() {
    let mut app = App::new();
    assert_eq!(app.update_on_tick(), AppReturn::Continue);
    assert_eq!(app.state().count_tick(), None);
    app.complete_command(CommandOutcome::Initialized);
    assert_eq!(app.update_on_tick(), AppReturn::Continue);
    assert_eq!(app.update_on_tick(), AppReturn::Continue);
    assert_eq!(app.state().count_tick(), Some(2));
}

#[test]
fn a_failed_send_clears_the_loading_flag() {
    let mut app = App::new();
    app.dispatch(IoEvent::Initialize);
    assert!(app.is_loading());
    app.dispatch_failed();
    assert!(!app.is_loading());
    assert!(!app.state().is_initialized());
}

#[test]
fn a_closed_input_stream_degrades_to_ticks() {
    assert_eq!(InputEvent::or_tick(None), InputEvent::Tick);
    assert_eq!(
        InputEvent::or_tick(Some(InputEvent::Input(Key::Char('q')))),
        InputEvent::Input(Key::Char('q'))
    );
}

#[test]
fn one_capture_cycle_emits_at_most_one_key_then_its_tick() {
    let with_key = churro_cli::inputs::cycle_events(Some(Key::Char('s')));
    assert_eq!(
        with_key,
        vec![InputEvent::Input(Key::Char('s')), InputEvent::Tick]
    );
    let without_key = churro_cli::inputs::cycle_events(None);
    assert_eq!(without_key, vec![InputEvent::Tick]);
}

#[test]
fn jira_service_packages_its_connection_data() {
    let service = churro_cli::jira::JiraService::new(
        String::from("https://example.atlassian.net"),
        String::from("SECRET-REDACTED"),
    );
    assert_eq!(service.base_url, "https://example.atlassian.net");
    assert_eq!(service.jwt, "SECRET-REDACTED");
}
