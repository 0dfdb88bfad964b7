use mithka_tdlib::driver::{Driver, SessionConfig, TdEvent};
use mithka_tdlib::run::{before_receive, LoopLimits, LoopStep, LoopTimers, RunOptions};
use std::time::Duration;

fn cfg() -> SessionConfig {
    SessionConfig {
        database_directory: "/tmp/db".to_string(),
        files_directory: "/tmp/db/files".to_string(),
        api_id: 1,
        api_hash: "h".to_string(),
        device_model: "Android".to_string(),
        system_language_code: "en".to_string(),
        system_version: "Linux".to_string(),
        application_version: "v".to_string(),
        chat_limit: 20,
    }
}

const LIMITS: LoopLimits = LoopLimits { auth_ms: 90_000, chat_ms: 20_000, close_ms: 8_000 };

#[test]
fn nothing_happens_before_a_wait_runs_out() {
    let mut driver = Driver::new(cfg());
    let mut timers = LoopTimers::new();
    assert!(before_receive(&mut driver, &mut timers, 10, false, LIMITS).is_empty());
}

#[test]
fn interrupt_closes_then_the_close_deadline_exits() {
    let mut driver = Driver::new(cfg());
    let mut timers = LoopTimers::new();
    let steps = before_receive(&mut driver, &mut timers, 100, true, LIMITS);
    assert_eq!(steps.len(), 1);
    match &steps[0] {
        LoopStep::Dispatch(effect) => {
            assert_eq!(effect.send[0].td_type(), "close");
            assert!(effect.exit.is_none());
        }
        other => panic!("{other:?}"),
    }
    assert_eq!(timers.close_deadline, Some(8_100));
    let waiting = before_receive(&mut driver, &mut timers, 8_099, true, LIMITS);
    match waiting.as_slice() {
        [LoopStep::Dispatch(effect)] => {
            assert!(effect.send.is_empty() && effect.lines.is_empty() && effect.exit.is_none());
        }
        other => panic!("{other:?}"),
    }
    let steps = before_receive(&mut driver, &mut timers, 8_100, true, LIMITS);
    match steps.as_slice() {
        [LoopStep::Dispatch(_), LoopStep::Emit(line), LoopStep::Exit(code)] => {
            assert_eq!(line, "close timed out; exiting");
            assert_eq!(*code, 130);
        }
        other => panic!("{other:?}"),
    }
}

#[test]
fn authorization_wait_gives_up() {
    let mut driver = Driver::new(cfg());
    let mut timers = LoopTimers::new();
    let steps = before_receive(&mut driver, &mut timers, 90_000, false, LIMITS);
    assert_eq!(steps.len(), 1);
    assert!(driver.is_closing());
}

#[test]
fn chat_wait_starts_at_ready() {
    let mut driver = Driver::new(cfg());
    let mut timers = LoopTimers::new();
    driver.on_event(&TdEvent::AuthorizationState {
        state: "authorizationStateReady".to_string(),
        is_encrypted: false,
    });
    assert!(before_receive(&mut driver, &mut timers, 1_000, false, LIMITS).is_empty());
    assert_eq!(timers.collecting_since, Some(1_000));
    assert!(before_receive(&mut driver, &mut timers, 20_999, false, LIMITS).is_empty());
    let steps = before_receive(&mut driver, &mut timers, 21_000, false, LIMITS);
    assert_eq!(steps.len(), 1);
}

#[test]
fn limits_are_the_waits_in_milliseconds() {
    let opts = RunOptions {
        verbosity: 1,
        debug: false,
        auth_timeout: Duration::from_secs(30),
        chat_timeout: Duration::from_millis(1500),
        close_timeout: Duration::MAX,
    };
    let limits = opts.limits();
    assert_eq!(limits, LoopLimits { auth_ms: 30_000, chat_ms: 1_500, close_ms: u64::MAX });
}
