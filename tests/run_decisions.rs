use yuyu::bot::{should_auto_connect, AttemptEnd, BotConnection};
use yuyu::config::BotConfig;
use yuyu::runner::{
    after_read, display_command, on_wake, shutdown_phase, ReadAction, ReadOutcome, ShutdownPhase, WakeAction,
};

#[test]
fn wake_checks_stop_before_death() {
    assert_eq!(on_wake(true, false), WakeAction::BeginShutdown);
    assert_eq!(on_wake(true, true), WakeAction::BeginShutdown);
    assert_eq!(on_wake(false, false), WakeAction::DrainAndExit);
    assert_eq!(on_wake(false, true), WakeAction::Read);
}

#[test]
fn read_outcomes_decide_the_loop() {
    assert_eq!(after_read(ReadOutcome::Data, false, true), ReadAction::Publish);
    assert_eq!(after_read(ReadOutcome::WouldBlock, false, true), ReadAction::Continue);
    assert_eq!(after_read(ReadOutcome::Eof, false, true), ReadAction::Exit);
    assert_eq!(after_read(ReadOutcome::Failed, true, true), ReadAction::Exit);
    assert_eq!(after_read(ReadOutcome::Failed, false, false), ReadAction::Exit);
    assert_eq!(after_read(ReadOutcome::Failed, false, true), ReadAction::ReportAndExit);
}

#[test]
fn graceful_window_is_five_seconds() {
    assert_eq!(shutdown_phase(false, 0), ShutdownPhase::Done);
    assert_eq!(shutdown_phase(true, 4999), ShutdownPhase::Drain);
    assert_eq!(shutdown_phase(true, 5000), ShutdownPhase::ForceKill);
}

#[test]
fn command_line_for_display() {
    assert_eq!(display_command("./bin", &vec![]), "./bin");
    assert_eq!(
        display_command("python", &vec!["main.py".to_string(), "-v".to_string()]),
        "python main.py -v"
    );
}

#[test]
fn auto_connect_needs_flag_and_host() {
    let mut c = BotConfig::default_config();
    assert!(!should_auto_connect(&c));
    c.auto_connect = true;
    assert!(should_auto_connect(&c));
    c.host = String::new();
    assert!(!should_auto_connect(&c));
}

#[test]
fn bot_connection_cycle() {
    let mut b = BotConnection::new();
    let s = b.begin_connect();
    assert!(!s.connected && s.connecting);
    let (s, persist) = b.on_connected();
    assert!(s.connected && !s.connecting);
    assert!(persist);
    let after = b.after_attempt(AttemptEnd::StreamEnded);
    assert!(after.retry);
    assert_eq!(after.persist_auto_connect, None);
    let st = after.status.unwrap();
    assert!(!st.connected && st.connecting);
    let after = b.after_attempt(AttemptEnd::Unreachable);
    assert!(after.retry && after.status.is_none());
    let s = b.disconnect();
    assert!(!s.connected && !s.connecting);
    let after = b.after_attempt(AttemptEnd::Refused);
    assert!(!after.retry);
    assert_eq!(after.persist_auto_connect, Some(false));
    let st = b.status();
    assert!(!st.connected && !st.connecting);
}
