use mithka_tdlib::driver::{check_settings, SettingError};
use mithka_tdlib::driver::{
    bootstrap_request, explain_error, set_tdlib_parameters, Driver, Effect, SessionConfig, TdEvent,
    TimeoutKind,
};
use mithka_tdlib::request::{ChatList, Request};

fn cfg() -> SessionConfig {
    SessionConfig {
        database_directory: "/tmp/mithka-copy/tdlib".to_string(),
        files_directory: "/tmp/mithka-copy/tdlib/files".to_string(),
        api_id: 100,
        api_hash: "unit-test-hash-not-a-secret".to_string(),
        device_model: "Android".to_string(),
        system_language_code: "en".to_string(),
        system_version: "Linux".to_string(),
        application_version: "mithka-tdlib-spike/0.1.0".to_string(),
        chat_limit: 20,
    }
}

fn auth(state: &str) -> TdEvent {
    TdEvent::AuthorizationState { state: state.to_string(), is_encrypted: false }
}

fn assert_no_logout(send: &[Request]) {
    for request in send {
        assert_ne!(request.td_type(), "logOut", "{request:?}");
    }
}

fn assert_lines_hide_hash(lines: &[String], hash: &str) {
    for line in lines {
        assert!(!line.contains(hash), "{line}");
    }
}

fn joined(effect: &Effect) -> String {
    effect.lines.join("\n")
}

#[test]
fn parameters_use_an_empty_key_and_mithka_flags() {
    let request = set_tdlib_parameters(&cfg());
    assert_eq!(request.td_type(), "setTdlibParameters");
    let Request::SetTdlibParameters(value) = request else {
        panic!("not setTdlibParameters");
    };
    assert_eq!(value.use_test_dc, false);
    assert_eq!(value.database_encryption_key, "");
    assert_eq!(value.use_file_database, true);
    assert_eq!(value.use_chat_info_database, true);
    assert_eq!(value.use_message_database, true);
    assert_eq!(value.use_secret_chats, true);
    assert_eq!(value.device_model, "Android");
    assert_eq!(value.system_language_code, "en");
    assert_eq!(value.application_version, "mithka-tdlib-spike/0.1.0");
    assert_eq!(value.database_directory, "/tmp/mithka-copy/tdlib");
    assert_eq!(value.files_directory, "/tmp/mithka-copy/tdlib/files");
    assert_eq!(value.api_id, 100);
    assert_eq!(value.api_hash, "unit-test-hash-not-a-secret");
}

#[test]
fn happy_path_prints_titles_then_closes() {
    let hash = cfg().api_hash.clone();
    let mut driver = Driver::new(cfg());
    let wait = auth("authorizationStateWaitTdlibParameters");
    let first = driver.on_event(&wait);
    assert_eq!(first.send.len(), 1);
    match &first.send[0] {
        Request::SetTdlibParameters(p) => assert_eq!(p.database_encryption_key, ""),
        other => panic!("{other:?}"),
    }
    assert_lines_hide_hash(&first.lines, &hash);
    assert_no_logout(&first.send);

    let again = driver.on_event(&wait);
    assert!(again.send.is_empty());

    let accepted = driver.on_event(&TdEvent::Accepted { extra: "setTdlibParameters".to_string() });
    assert!(accepted.lines.iter().any(|line| line.contains("accepted")));

    let ready = driver.on_event(&auth("authorizationStateReady"));
    assert!(ready.lines.iter().any(|line| line == "Ready"));
    assert_eq!(ready.send[0].td_type(), "getChats");
    match &ready.send[0] {
        Request::GetChats { chat_list, .. } => assert_eq!(*chat_list, ChatList::Main),
        other => panic!("{other:?}"),
    }

    let news = driver.on_event(&TdEvent::NewChat { id: Some(101), title: Some("Alpha".to_string()) });
    assert!(news.send.is_empty());

    let chats = driver.on_event(&TdEvent::Chats { chat_ids: vec![101, 102] });
    assert_eq!(chats.send.len(), 1);
    assert_eq!(chats.send[0].td_type(), "getChat");
    match &chats.send[0] {
        Request::GetChat { chat_id, .. } => assert_eq!(*chat_id, 102),
        other => panic!("{other:?}"),
    }

    let title = driver.on_event(&TdEvent::Chat { id: Some(102), title: Some("Beta\nline".to_string()) });
    let printed = joined(&title);
    assert!(printed.contains("1. Alpha"), "{printed}");
    assert!(printed.contains("2. Beta line"), "{printed}");
    assert_eq!(title.send[0].td_type(), "close");
    assert!(title.exit.is_none());
    assert_no_logout(&title.send);

    let closed = driver.on_event(&auth("authorizationStateClosed"));
    assert_eq!(closed.exit, Some(0));
}

#[test]
fn empty_chat_list_loads_then_reports_none() {
    let mut driver = Driver::new(cfg());
    driver.on_event(&auth("authorizationStateWaitTdlibParameters"));
    driver.on_event(&auth("authorizationStateReady"));
    let empty = driver.on_event(&TdEvent::Chats { chat_ids: vec![] });
    assert_eq!(empty.send[0].td_type(), "loadChats");
    let again = driver.on_event(&TdEvent::Accepted { extra: "loadChats".to_string() });
    assert_eq!(again.send[0].td_type(), "getChats");
    let done = driver.on_event(&TdEvent::Chats { chat_ids: vec![] });
    assert!(done.lines.iter().any(|line| line.contains("none")));
    assert_eq!(done.send[0].td_type(), "close");
}

#[test]
fn load_chats_404_retries_get_chats() {
    let mut driver = Driver::new(cfg());
    driver.on_event(&auth("authorizationStateReady"));
    driver.on_event(&TdEvent::Chats { chat_ids: vec![] });
    let missing = driver.on_event(&TdEvent::Error {
        code: 404,
        message: "Not Found".to_string(),
        extra: "loadChats".to_string(),
    });
    assert!(missing.lines.iter().any(|line| line.contains("404")));
    assert_eq!(missing.send[0].td_type(), "getChats");
    assert!(missing.exit.is_none());
}

#[test]
fn lock_error_is_explained_and_not_a_panic_path() {
    let mut driver = Driver::new(cfg());
    driver.on_event(&auth("authorizationStateWaitTdlibParameters"));
    let err = driver.on_event(&TdEvent::Error {
        code: 400,
        message: "Can't lock file \"/tmp/td.binlog\"".to_string(),
        extra: "setTdlibParameters".to_string(),
    });
    let text = joined(&err);
    assert!(text.contains("TDLib error 400"), "{text}");
    assert!(text.contains("hint:"), "{text}");
    assert!(text.to_ascii_lowercase().contains("copy"), "{text}");
    assert_eq!(err.send[0].td_type(), "close");
    let closed = driver.on_event(&auth("authorizationStateClosed"));
    assert_eq!(closed.exit, Some(1));
}

#[test]
fn encryption_401_names_the_empty_key() {
    let mut driver = Driver::new(cfg());
    let err = driver.on_event(&TdEvent::Error {
        code: 401,
        message: "Wrong database encryption key".to_string(),
        extra: "setTdlibParameters".to_string(),
    });
    let text = joined(&err);
    assert!(text.contains("401"), "{text}");
    assert!(text.contains("empty"), "{text}");
    assert_eq!(err.send[0].td_type(), "close");
}

#[test]
fn generation_mismatch_is_explained() {
    let hint = explain_error(400, "database is from a future TDLib version", "setTdlibParameters");
    assert!(hint.unwrap().contains("1.8.67"));
}

#[test]
fn phone_state_exits_without_asking_for_a_code() {
    let mut driver = Driver::new(cfg());
    let effect = driver.on_event(&auth("authorizationStateWaitPhoneNumber"));
    let text = joined(&effect);
    assert!(text.contains("authorizationStateWaitPhoneNumber"), "{text}");
    assert!(text.contains("does not ask"), "{text}");
    assert_eq!(effect.send[0].td_type(), "close");
    assert_no_logout(&effect.send);
    let closed = driver.on_event(&auth("authorizationStateClosed"));
    assert_eq!(closed.exit, Some(3));
}

#[test]
fn legacy_encryption_state_sends_an_empty_check() {
    let mut driver = Driver::new(cfg());
    let effect = driver.on_event(&TdEvent::AuthorizationState {
        state: "authorizationStateWaitEncryptionKey".to_string(),
        is_encrypted: false,
    });
    assert_eq!(effect.send[0].td_type(), "checkDatabaseEncryptionKey");
    match &effect.send[0] {
        Request::CheckDatabaseEncryptionKey { encryption_key, .. } => assert_eq!(encryption_key, ""),
        other => panic!("{other:?}"),
    }
}

#[test]
fn interrupt_closes_instead_of_logging_out() {
    let mut driver = Driver::new(cfg());
    let effect = driver.interrupt();
    assert_eq!(effect.send.len(), 1);
    assert_eq!(effect.send[0].td_type(), "close");
    assert_no_logout(&effect.send);
}

#[test]
fn closed_session_ignores_later_events() {
    let mut driver = Driver::new(cfg());
    driver.interrupt();
    let closed = driver.on_event(&auth("authorizationStateClosed"));
    assert_eq!(closed.exit, Some(130));
    let later = driver.on_event(&auth("authorizationStateReady"));
    assert!(later.send.is_empty() && later.lines.is_empty() && later.exit.is_none());
}

#[test]
fn parameters_are_sent_once_and_close_once() {
    let mut driver = Driver::new(cfg());
    let wait = auth("authorizationStateWaitTdlibParameters");
    assert_eq!(driver.on_event(&wait).send.len(), 1);
    assert!(driver.on_event(&wait).send.is_empty());
    assert_eq!(driver.interrupt().send.len(), 1);
    assert!(driver.interrupt().send.is_empty());
    let timeout = driver.on_timeout(TimeoutKind::Auth);
    assert!(timeout.send.is_empty());
}

#[test]
fn auth_timeout_names_the_last_state() {
    let mut driver = Driver::new(cfg());
    driver.on_event(&auth("authorizationStateWaitTdlibParameters"));
    let effect = driver.on_timeout(TimeoutKind::Auth);
    let text = joined(&effect);
    assert!(text.contains("authorizationStateWaitTdlibParameters"), "{text}");
    assert_eq!(effect.send[0].td_type(), "close");
}

#[test]
fn bootstrap_asks_for_the_version() {
    let request = bootstrap_request();
    assert_eq!(request.td_type(), "getOption");
}

#[test]
fn startup_settings_are_checked_in_order() {
    assert_eq!(check_settings(0, "h", "d", "en", "v", 10), Err(SettingError::ApiId));
    assert_eq!(check_settings(1, "  ", "d", "en", "v", 10), Err(SettingError::ApiHash));
    assert_eq!(check_settings(1, "h", " ", "en", "v", 10), Err(SettingError::BlankField));
    assert_eq!(check_settings(1, "h", "d", "", "v", 10), Err(SettingError::BlankField));
    assert_eq!(check_settings(1, "h", "d", "en", "\t", 10), Err(SettingError::BlankField));
    assert_eq!(check_settings(1, "h", "d", "en", "v", 0), Err(SettingError::ChatLimit));
    assert_eq!(check_settings(1, "h", "d", "en", "v", 101), Err(SettingError::ChatLimit));
    assert_eq!(check_settings(-5, "", "", "", "", 0), Err(SettingError::ApiId));
    assert_eq!(check_settings(7, "  abc \n", "d", "en", "v", 100), Ok("abc".to_string()));
    assert_eq!(check_settings(7, "abc", "d", "en", "v", 1), Ok("abc".to_string()));
    assert_eq!(SettingError::ChatLimit.message(), "--chat-limit must be between 1 and 100");
    assert_eq!(SettingError::ApiHash.message(), "--api-hash / TDLIB_API_HASH is empty");
}

#[test]
fn lines_and_exit_do_not_depend_on_the_api_hash() {
    let mut other_cfg = cfg();
    other_cfg.api_hash = "a-different-hash".to_string();
    let mut a = Driver::new(cfg());
    let mut b = Driver::new(other_cfg);
    let events = vec![
        auth("authorizationStateWaitTdlibParameters"),
        TdEvent::Accepted { extra: "setTdlibParameters".to_string() },
        auth("authorizationStateReady"),
        TdEvent::Chats { chat_ids: vec![1, 2] },
        TdEvent::Chat { id: Some(1), title: Some("One".to_string()) },
        TdEvent::Error { code: 400, message: "Chat not found".to_string(), extra: "getChat:2".to_string() },
        auth("authorizationStateClosed"),
    ];
    for event in &events {
        let x = a.on_event(event);
        let y = b.on_event(event);
        assert_eq!(x.lines, y.lines);
        assert_eq!(x.exit, y.exit);
        assert_eq!(x.send.len(), y.send.len());
    }
}

#[test]
fn the_first_close_fixes_the_exit_code() {
    let mut driver = Driver::new(cfg());
    driver.on_event(&auth("authorizationStateWaitPhoneNumber"));
    assert_eq!(driver.pending_code(), 3);
    driver.interrupt();
    driver.on_event(&TdEvent::Error { code: 401, message: "x".to_string(), extra: "setTdlibParameters".to_string() });
    assert_eq!(driver.pending_code(), 3);
    let closed = driver.on_event(&auth("authorizationStateClosed"));
    assert_eq!(closed.exit, Some(3));
    assert!(closed.send.is_empty());
    assert_eq!(closed.lines.last().map(String::as_str), Some("closed"));
    let later = driver.on_timeout(TimeoutKind::Chats);
    assert!(later.send.is_empty() && later.lines.is_empty() && later.exit.is_none());
}

#[test]
fn hints_ignore_letter_case() {
    assert_eq!(explain_error(400, "Can't LOCK file td.binlog", ""), explain_error(400, "can't lock file td.binlog", ""));
    assert!(explain_error(400, "CAN'T LOCK FILE", "").is_some());
    assert_eq!(explain_error(400, "Something Else", ""), None);
}
