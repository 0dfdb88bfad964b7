use mithka_tdlib::notify::{
    chat_is_muted, is_muted, mute_forever, scope_fetch_requests, scope_from_extra,
    set_chat_notification_settings, set_scope_notification_settings, ChatNotificationSettings,
    ChatSettingsFields, NotificationScope, ScopeNotificationState, ScopeSettingsFields,
    MUTE_FOREVER_SECONDS,
};
use mithka_tdlib::request::Request;

#[test]
fn mute_longer_than_366_days_is_the_forever_value() {
    assert!(MUTE_FOREVER_SECONDS > 366 * 24 * 60 * 60);
    assert!(is_muted(MUTE_FOREVER_SECONDS));
    assert!(is_muted(1));
    assert!(!is_muted(0));
}

#[test]
fn default_mute_follows_the_scope_and_an_explicit_unmute_wins() {
    let scopes = vec![(
        NotificationScope::Group,
        ScopeNotificationState { mute_for: MUTE_FOREVER_SECONDS, ..ScopeNotificationState::tdlib_default() },
    )];
    let inherited = ChatNotificationSettings {
        use_default_mute_for: true,
        mute_for: 0,
        ..ChatNotificationSettings::mute_only()
    };
    assert!(chat_is_muted(Some(&inherited), Some(NotificationScope::Group), &scopes));
    assert!(!chat_is_muted(Some(&inherited), Some(NotificationScope::Private), &scopes));
    assert!(!chat_is_muted(Some(&inherited), None, &scopes));
    let explicit = inherited.with_muted(false);
    assert!(!chat_is_muted(Some(&explicit), Some(NotificationScope::Group), &scopes));
    assert!(!chat_is_muted(None, Some(NotificationScope::Group), &scopes));
}

#[test]
fn chat_mute_request_keeps_the_other_fields() {
    let current = ChatNotificationSettings {
        use_default_mute_for: true,
        mute_for: 0,
        use_default_sound: false,
        sound_id: 7,
        use_default_show_preview: false,
        show_preview: false,
        use_default_mute_stories: false,
        mute_stories: true,
        use_default_story_sound: false,
        story_sound_id: 9,
        use_default_show_story_poster: false,
        show_story_poster: false,
        use_default_disable_pinned_message_notifications: false,
        disable_pinned_message_notifications: true,
        use_default_disable_mention_notifications: false,
        disable_mention_notifications: true,
    };
    let request = set_chat_notification_settings(15, &current.clone().with_muted(true));
    assert_eq!(request.td_type(), "setChatNotificationSettings");
    let Request::SetChatNotificationSettings { chat_id, notification_settings: settings, extra } = request else {
        panic!("not setChatNotificationSettings");
    };
    assert_eq!(chat_id, 15);
    assert_eq!(extra, "setChatNotificationSettings:15");
    assert_eq!(settings.use_default_mute_for, false);
    assert_eq!(settings.mute_for, MUTE_FOREVER_SECONDS);
    assert_eq!(settings.use_default_sound, false);
    assert_eq!(settings.sound_id, 7);
    assert_eq!(settings.show_preview, false);
    assert_eq!(settings.mute_stories, true);
    assert_eq!(settings.story_sound_id, 9);
    assert_eq!(settings.disable_pinned_message_notifications, true);
    assert_eq!(settings.disable_mention_notifications, true);
    assert_eq!(settings, current.with_muted(true));
}

#[test]
fn scope_requests_use_the_1_8_67_type_names() {
    let fetch = scope_fetch_requests();
    assert_eq!(fetch.len(), 3);
    assert_eq!(fetch[0].td_type(), "getScopeNotificationSettings");
    let scope_of = |r: &Request| match r {
        Request::GetScopeNotificationSettings { scope, extra } => (*scope, extra.clone()),
        other => panic!("{other:?}"),
    };
    let (scope0, extra0) = scope_of(&fetch[0]);
    assert_eq!(scope0.type_tag(), "notificationSettingsScopePrivateChats");
    assert_eq!(extra0, "getScopeNotificationSettings:private");
    assert_eq!(scope_of(&fetch[1]).0.type_tag(), "notificationSettingsScopeGroupChats");
    assert_eq!(scope_of(&fetch[2]).0.type_tag(), "notificationSettingsScopeChannelChats");
    assert!(fetch.iter().all(|r| r.td_type() != "getChatFolders" && r.td_type() != "logOut"));

    let mut state = ScopeNotificationState {
        sound_id: 4,
        disable_mention_notifications: true,
        ..ScopeNotificationState::tdlib_default()
    };
    state.mute_for = mute_forever(true);
    state.show_preview = false;
    let request = set_scope_notification_settings(NotificationScope::Channel, &state);
    assert_eq!(request.td_type(), "setScopeNotificationSettings");
    let Request::SetScopeNotificationSettings { scope, notification_settings, extra } = request else {
        panic!("not setScopeNotificationSettings");
    };
    assert_eq!(scope.type_tag(), "notificationSettingsScopeChannelChats");
    assert_eq!(extra, "setScopeNotificationSettings:channel");
    assert_eq!(notification_settings.mute_for, MUTE_FOREVER_SECONDS);
    assert_eq!(notification_settings.sound_id, 4);
    assert_eq!(notification_settings.show_preview, false);
    assert_eq!(notification_settings.disable_mention_notifications, true);
    assert_eq!(notification_settings, state);
    assert_eq!(
        NotificationScope::from_type_name(scope.type_tag()),
        Some(NotificationScope::Channel)
    );
    assert_eq!(scope_from_extra("getScopeNotificationSettings:group"), Some(NotificationScope::Group));
}

#[test]
fn scope_keys_round_trip() {
    for scope in NotificationScope::all() {
        assert_eq!(NotificationScope::from_key(scope.key()), Some(scope));
        assert_eq!(NotificationScope::from_type_name(scope.type_tag()), Some(scope));
    }
    assert_eq!(NotificationScope::from_key("secret"), None);
    assert_eq!(scope_from_extra("getScopeNotificationSettings:"), None);
}

#[test]
fn the_first_matching_scope_decides() {
    let scopes = vec![
        (NotificationScope::Group, ScopeNotificationState::tdlib_default()),
        (
            NotificationScope::Group,
            ScopeNotificationState { mute_for: MUTE_FOREVER_SECONDS, ..ScopeNotificationState::tdlib_default() },
        ),
    ];
    let inherited = ChatNotificationSettings::mute_only();
    assert!(!chat_is_muted(Some(&inherited), Some(NotificationScope::Group), &scopes));
    assert_eq!(mute_forever(false), 0);
}

#[test]
fn any_tag_ending_in_a_scope_key_names_that_scope() {
    for scope in [NotificationScope::Private, NotificationScope::Group, NotificationScope::Channel] {
        for prefix in ["", "a:b", "set:scope:x", "::"] {
            assert_eq!(scope_from_extra(&format!("{prefix}:{}", scope.key())), Some(scope));
        }
    }
    assert_eq!(scope_from_extra("group"), None);
    assert_eq!(scope_from_extra("x:groups"), None);
}

#[test]
fn settings_fields_take_defaults() {
    let none = ChatSettingsFields {
        use_default_mute_for: None,
        mute_for: Some(1 << 40),
        use_default_sound: None,
        sound_id: Some(7),
        use_default_show_preview: Some(false),
        show_preview: None,
        use_default_mute_stories: None,
        mute_stories: None,
        use_default_story_sound: None,
        story_sound_id: None,
        use_default_show_story_poster: None,
        show_story_poster: None,
        use_default_disable_pinned_message_notifications: None,
        disable_pinned_message_notifications: Some(true),
        use_default_disable_mention_notifications: None,
        disable_mention_notifications: None,
    };
    let s = ChatNotificationSettings::from_fields(&none);
    assert!(s.use_default_mute_for);
    assert_eq!(s.mute_for, 0);
    assert_eq!(s.sound_id, 7);
    assert!(!s.use_default_show_preview);
    assert!(s.show_preview);
    assert!(!s.mute_stories);
    assert!(s.show_story_poster);
    assert!(s.disable_pinned_message_notifications);
    assert!(!s.disable_mention_notifications);

    let scope = ScopeNotificationState::from_fields(&ScopeSettingsFields {
        mute_for: Some(3600),
        sound_id: None,
        show_preview: None,
        use_default_mute_stories: None,
        mute_stories: None,
        story_sound_id: None,
        show_story_poster: Some(false),
        disable_pinned_message_notifications: None,
        disable_mention_notifications: None,
    });
    assert_eq!(scope.mute_for, 3600);
    assert_eq!(scope.sound_id, -1);
    assert_eq!(scope.story_sound_id, -1);
    assert!(scope.show_preview && scope.use_default_mute_stories);
    assert!(!scope.show_story_poster);
}
