//! TDLib 1.8.67 notification settings.
//!
//! Mute and preview live in TDLib (`setChatNotificationSettings`,
//! `getScopeNotificationSettings`, `setScopeNotificationSettings`); nothing
//! here keeps a second copy. A mute longer than 366 days is forever.

use vstd::prelude::*;
use crate::request::Request;
use crate::textutil::{str_eq, chars_of, string_of, push_int, int_text};

verus! {

/// Seconds. TDLib 1.8.67 treats a mute longer than 366 days as forever.
pub const MUTE_FOREVER_SECONDS: i32 = 366 * 24 * 60 * 60 + 1;

/// `notificationSettingsScope*` in TDLib 1.8.67. Private includes secret
/// chats, Group basic groups and non-channel supergroups, Channel a
/// supergroup with `is_channel`.
#[derive(Clone, Copy, Debug, PartialEq, Eq, Hash)]
pub enum NotificationScope {
    Private,
    Group,
    Channel,
}

/// The short key used in request `@extra` tags.
pub open spec fn scope_key(scope: NotificationScope) -> Seq<char> {
    match scope {
        NotificationScope::Private => "private"@,
        NotificationScope::Group => "group"@,
        NotificationScope::Channel => "channel"@,
    }
}

/// The TDLib `@type` of the scope object.
pub open spec fn scope_type_name(scope: NotificationScope) -> Seq<char> {
    match scope {
        NotificationScope::Private => "notificationSettingsScopePrivateChats"@,
        NotificationScope::Group => "notificationSettingsScopeGroupChats"@,
        NotificationScope::Channel => "notificationSettingsScopeChannelChats"@,
    }
}

/// The scope whose key is `key`.
pub open spec fn scope_of_key(key: Seq<char>) -> Option<NotificationScope> {
    if key == "private"@ {
        Some(NotificationScope::Private)
    } else if key == "group"@ {
        Some(NotificationScope::Group)
    } else if key == "channel"@ {
        Some(NotificationScope::Channel)
    } else {
        None
    }
}

/// The scope whose TDLib `@type` is `name`.
pub open spec fn scope_of_type_name(name: Seq<char>) -> Option<NotificationScope> {
    if name == "notificationSettingsScopePrivateChats"@ {
        Some(NotificationScope::Private)
    } else if name == "notificationSettingsScopeGroupChats"@ {
        Some(NotificationScope::Group)
    } else if name == "notificationSettingsScopeChannelChats"@ {
        Some(NotificationScope::Channel)
    } else {
        None
    }
}

impl NotificationScope {
    pub fn key(self) -> (k: &'static str)
        ensures
            k@ == scope_key(self),
    {
        match self {
            NotificationScope::Private => "private",
            NotificationScope::Group => "group",
            NotificationScope::Channel => "channel",
        }
    }

    pub fn type_tag(self) -> (t: &'static str)
        ensures
            t@ == scope_type_name(self),
    {
        match self {
            NotificationScope::Private => "notificationSettingsScopePrivateChats",
            NotificationScope::Group => "notificationSettingsScopeGroupChats",
            NotificationScope::Channel => "notificationSettingsScopeChannelChats",
        }
    }

    pub fn all() -> (all: [NotificationScope; 3])
        ensures
            all@ == seq![NotificationScope::Private, NotificationScope::Group, NotificationScope::Channel],
    {
        let all = [NotificationScope::Private, NotificationScope::Group, NotificationScope::Channel];
        assert(all@ =~= seq![NotificationScope::Private, NotificationScope::Group, NotificationScope::Channel]);
        all
    }

    pub fn from_key(key: &str) -> (r: Option<Self>)
        ensures
            r == scope_of_key(key@),
    {
        if str_eq(key, "private") {
            Some(NotificationScope::Private)
        } else if str_eq(key, "group") {
            Some(NotificationScope::Group)
        } else if str_eq(key, "channel") {
            Some(NotificationScope::Channel)
        } else {
            None
        }
    }

    /// The scope named by a scope object's `@type`.
    pub fn from_type_name(name: &str) -> (r: Option<Self>)
        ensures
            r == scope_of_type_name(name@),
    {
        if str_eq(name, "notificationSettingsScopePrivateChats") {
            Some(NotificationScope::Private)
        } else if str_eq(name, "notificationSettingsScopeGroupChats") {
            Some(NotificationScope::Group)
        } else if str_eq(name, "notificationSettingsScopeChannelChats") {
            Some(NotificationScope::Channel)
        } else {
            None
        }
    }
}

/// One scope default the UI can show. Other TDLib fields stay on
/// [`ScopeNotificationState`] and are written back unchanged.
#[derive(Clone, Debug, PartialEq, Eq)]
pub struct ScopeNotification {
    pub scope: NotificationScope,
    pub muted: bool,
    pub show_preview: bool,
}

/// `chatNotificationSettings` from TDLib 1.8.67, including the story fields
/// the schema requires; those are copied through unchanged.
#[derive(Clone, Copy, Debug, PartialEq, Eq)]
pub struct ChatNotificationSettings {
    pub use_default_mute_for: bool,
    pub mute_for: i32,
    pub use_default_sound: bool,
    pub sound_id: i64,
    pub use_default_show_preview: bool,
    pub show_preview: bool,
    pub use_default_mute_stories: bool,
    pub mute_stories: bool,
    pub use_default_story_sound: bool,
    pub story_sound_id: i64,
    pub use_default_show_story_poster: bool,
    pub show_story_poster: bool,
    pub use_default_disable_pinned_message_notifications: bool,
    pub disable_pinned_message_notifications: bool,
    pub use_default_disable_mention_notifications: bool,
    pub disable_mention_notifications: bool,
}

/// Mute time for a mute switch: forever when muted, zero otherwise.
pub open spec fn mute_value(muted: bool) -> i32 {
    if muted {
        MUTE_FOREVER_SECONDS
    } else {
        0
    }
}

impl ChatNotificationSettings {
    /// Every field on the scope default (`use_default_*`), unmuted.
    pub fn mute_only() -> (s: Self)
        ensures
            s.use_default_mute_for && s.mute_for == 0,
            s.use_default_sound && s.sound_id == 0,
            s.use_default_show_preview && s.show_preview,
            s.use_default_mute_stories && !s.mute_stories,
            s.use_default_story_sound && s.story_sound_id == 0,
            s.use_default_show_story_poster && s.show_story_poster,
            s.use_default_disable_pinned_message_notifications && !s.disable_pinned_message_notifications,
            s.use_default_disable_mention_notifications && !s.disable_mention_notifications,
    {
        Self {
            use_default_mute_for: true,
            mute_for: 0,
            use_default_sound: true,
            sound_id: 0,
            use_default_show_preview: true,
            show_preview: true,
            use_default_mute_stories: true,
            mute_stories: false,
            use_default_story_sound: true,
            story_sound_id: 0,
            use_default_show_story_poster: true,
            show_story_poster: true,
            use_default_disable_pinned_message_notifications: true,
            disable_pinned_message_notifications: false,
            use_default_disable_mention_notifications: true,
            disable_mention_notifications: false,
        }
    }

    /// An explicit mute switch: the chat stops following its scope's mute and
    /// every other field stays as it was.
    pub fn with_muted(self, muted: bool) -> (s: Self)
        ensures
            s == (Self { use_default_mute_for: false, mute_for: mute_value(muted), ..self }),
    {
        let mut s = self;
        s.use_default_mute_for = false;
        s.mute_for = mute_forever(muted);
        s
    }
}

/// A flag read from a reply, or `default` where the reply has none.
pub open spec fn flag_or(v: Option<bool>, default: bool) -> bool {
    match v {
        Some(b) => b,
        None => default,
    }
}

/// A number read from a reply, or `default` where the reply has none.
pub open spec fn number_or(v: Option<i64>, default: i64) -> i64 {
    match v {
        Some(n) => n,
        None => default,
    }
}

/// A number read from a reply as an `i32`: `default` where the reply has
/// none or the number does not fit.
pub open spec fn small_number_or(v: Option<i64>, default: i32) -> i32 {
    match v {
        Some(n) => if i32::MIN <= n <= i32::MAX {
            n as i32
        } else {
            default
        },
        None => default,
    }
}

fn flag(v: Option<bool>, default: bool) -> (r: bool)
    ensures
        r == flag_or(v, default),
{
    match v {
        Some(b) => b,
        None => default,
    }
}

fn number(v: Option<i64>, default: i64) -> (r: i64)
    ensures
        r == number_or(v, default),
{
    match v {
        Some(n) => n,
        None => default,
    }
}

fn small_number(v: Option<i64>, default: i32) -> (r: i32)
    ensures
        r == small_number_or(v, default),
{
    match v {
        Some(n) => if -2147483648 <= n && n <= 2147483647 {
            n as i32
        } else {
            default
        },
        None => default,
    }
}

/// The fields of a `chatNotificationSettings` object as a reply carries
/// them: `None` where the field is missing or not of its type.
pub struct ChatSettingsFields {
    pub use_default_mute_for: Option<bool>,
    pub mute_for: Option<i64>,
    pub use_default_sound: Option<bool>,
    pub sound_id: Option<i64>,
    pub use_default_show_preview: Option<bool>,
    pub show_preview: Option<bool>,
    pub use_default_mute_stories: Option<bool>,
    pub mute_stories: Option<bool>,
    pub use_default_story_sound: Option<bool>,
    pub story_sound_id: Option<i64>,
    pub use_default_show_story_poster: Option<bool>,
    pub show_story_poster: Option<bool>,
    pub use_default_disable_pinned_message_notifications: Option<bool>,
    pub disable_pinned_message_notifications: Option<bool>,
    pub use_default_disable_mention_notifications: Option<bool>,
    pub disable_mention_notifications: Option<bool>,
}

impl ChatNotificationSettings {
    /// Settings from the fields of a reply. A missing field takes its
    /// default: every `use_default_*`, `show_preview` and
    /// `show_story_poster` true, the other flags false, the numbers 0; a
    /// `mute_for` outside `i32` counts as missing.
    pub fn from_fields(f: &ChatSettingsFields) -> (s: Self)
        ensures
            s.use_default_mute_for == flag_or(f.use_default_mute_for, true),
            s.mute_for == small_number_or(f.mute_for, 0),
            s.use_default_sound == flag_or(f.use_default_sound, true),
            s.sound_id == number_or(f.sound_id, 0),
            s.use_default_show_preview == flag_or(f.use_default_show_preview, true),
            s.show_preview == flag_or(f.show_preview, true),
            s.use_default_mute_stories == flag_or(f.use_default_mute_stories, true),
            s.mute_stories == flag_or(f.mute_stories, false),
            s.use_default_story_sound == flag_or(f.use_default_story_sound, true),
            s.story_sound_id == number_or(f.story_sound_id, 0),
            s.use_default_show_story_poster == flag_or(f.use_default_show_story_poster, true),
            s.show_story_poster == flag_or(f.show_story_poster, true),
            s.use_default_disable_pinned_message_notifications == flag_or(
                f.use_default_disable_pinned_message_notifications,
                true,
            ),
            s.disable_pinned_message_notifications == flag_or(f.disable_pinned_message_notifications, false),
            s.use_default_disable_mention_notifications == flag_or(
                f.use_default_disable_mention_notifications,
                true,
            ),
            s.disable_mention_notifications == flag_or(f.disable_mention_notifications, false),
    {
        Self {
            use_default_mute_for: flag(f.use_default_mute_for, true),
            mute_for: small_number(f.mute_for, 0),
            use_default_sound: flag(f.use_default_sound, true),
            sound_id: number(f.sound_id, 0),
            use_default_show_preview: flag(f.use_default_show_preview, true),
            show_preview: flag(f.show_preview, true),
            use_default_mute_stories: flag(f.use_default_mute_stories, true),
            mute_stories: flag(f.mute_stories, false),
            use_default_story_sound: flag(f.use_default_story_sound, true),
            story_sound_id: number(f.story_sound_id, 0),
            use_default_show_story_poster: flag(f.use_default_show_story_poster, true),
            show_story_poster: flag(f.show_story_poster, true),
            use_default_disable_pinned_message_notifications: flag(
                f.use_default_disable_pinned_message_notifications,
                true,
            ),
            disable_pinned_message_notifications: flag(f.disable_pinned_message_notifications, false),
            use_default_disable_mention_notifications: flag(f.use_default_disable_mention_notifications, true),
            disable_mention_notifications: flag(f.disable_mention_notifications, false),
        }
    }
}

/// The fields of a `scopeNotificationSettings` object as a reply carries
/// them: `None` where the field is missing or not of its type.
pub struct ScopeSettingsFields {
    pub mute_for: Option<i64>,
    pub sound_id: Option<i64>,
    pub show_preview: Option<bool>,
    pub use_default_mute_stories: Option<bool>,
    pub mute_stories: Option<bool>,
    pub story_sound_id: Option<i64>,
    pub show_story_poster: Option<bool>,
    pub disable_pinned_message_notifications: Option<bool>,
    pub disable_mention_notifications: Option<bool>,
}

/// `scopeNotificationSettings` from TDLib 1.8.67.
#[derive(Clone, Copy, Debug, PartialEq, Eq)]
pub struct ScopeNotificationState {
    pub mute_for: i32,
    pub sound_id: i64,
    pub show_preview: bool,
    pub use_default_mute_stories: bool,
    pub mute_stories: bool,
    pub story_sound_id: i64,
    pub show_story_poster: bool,
    pub disable_pinned_message_notifications: bool,
    pub disable_mention_notifications: bool,
}

impl ScopeNotificationState {
    /// Settings from the fields of a reply. A missing field takes its
    /// default: `mute_for` 0, both sound ids `-1`, `show_preview`,
    /// `use_default_mute_stories` and `show_story_poster` true, the other
    /// flags false; a `mute_for` outside `i32` counts as missing.
    pub fn from_fields(f: &ScopeSettingsFields) -> (s: Self)
        ensures
            s.mute_for == small_number_or(f.mute_for, 0),
            s.sound_id == number_or(f.sound_id, -1i64),
            s.show_preview == flag_or(f.show_preview, true),
            s.use_default_mute_stories == flag_or(f.use_default_mute_stories, true),
            s.mute_stories == flag_or(f.mute_stories, false),
            s.story_sound_id == number_or(f.story_sound_id, -1i64),
            s.show_story_poster == flag_or(f.show_story_poster, true),
            s.disable_pinned_message_notifications == flag_or(f.disable_pinned_message_notifications, false),
            s.disable_mention_notifications == flag_or(f.disable_mention_notifications, false),
    {
        Self {
            mute_for: small_number(f.mute_for, 0),
            sound_id: number(f.sound_id, -1),
            show_preview: flag(f.show_preview, true),
            use_default_mute_stories: flag(f.use_default_mute_stories, true),
            mute_stories: flag(f.mute_stories, false),
            story_sound_id: number(f.story_sound_id, -1),
            show_story_poster: flag(f.show_story_poster, true),
            disable_pinned_message_notifications: flag(f.disable_pinned_message_notifications, false),
            disable_mention_notifications: flag(f.disable_mention_notifications, false),
        }
    }

    /// TDLib's own default: unmuted, previews shown, app-default sound (`-1`).
    pub fn tdlib_default() -> (s: Self)
        ensures
            s == (Self {
                mute_for: 0,
                sound_id: -1i64,
                show_preview: true,
                use_default_mute_stories: true,
                mute_stories: false,
                story_sound_id: -1i64,
                show_story_poster: true,
                disable_pinned_message_notifications: false,
                disable_mention_notifications: false,
            }),
    {
        Self {
            mute_for: 0,
            sound_id: -1,
            show_preview: true,
            use_default_mute_stories: true,
            mute_stories: false,
            story_sound_id: -1,
            show_story_poster: true,
            disable_pinned_message_notifications: false,
            disable_mention_notifications: false,
        }
    }

    pub fn muted(&self) -> (m: bool)
        ensures
            m == (self.mute_for != 0),
    {
        self.mute_for != 0
    }

    pub fn to_public(&self, scope: NotificationScope) -> (p: ScopeNotification)
        ensures
            p == (ScopeNotification { scope, muted: self.mute_for != 0, show_preview: self.show_preview }),
    {
        ScopeNotification { scope, muted: self.muted(), show_preview: self.show_preview }
    }
}

pub fn mute_forever(muted: bool) -> (m: i32)
    ensures
        m == mute_value(muted),
{
    if muted {
        MUTE_FOREVER_SECONDS
    } else {
        0
    }
}

pub fn is_muted(mute_for: i32) -> (m: bool)
    ensures
        m == (mute_for != 0),
{
    mute_for != 0
}

/// The first stored settings for `scope`.
pub open spec fn scope_lookup(
    scopes: Seq<(NotificationScope, ScopeNotificationState)>,
    scope: NotificationScope,
) -> Option<ScopeNotificationState>
    decreases scopes.len(),
{
    if scopes.len() == 0 {
        None
    } else if scopes[0].0 == scope {
        Some(scopes[0].1)
    } else {
        scope_lookup(scopes.drop_first(), scope)
    }
}

/// Effective mute of a chat: its own mute, or its scope's mute while it
/// follows the scope default. Unknown settings or scopes are unmuted.
pub open spec fn chat_muted_spec(
    settings: Option<ChatNotificationSettings>,
    scope: Option<NotificationScope>,
    scopes: Seq<(NotificationScope, ScopeNotificationState)>,
) -> bool {
    match settings {
        None => false,
        Some(s) => if s.use_default_mute_for {
            match scope {
                None => false,
                Some(sc) => match scope_lookup(scopes, sc) {
                    Some(st) => st.mute_for != 0,
                    None => false,
                },
            }
        } else {
            s.mute_for != 0
        },
    }
}

fn same_scope(a: NotificationScope, b: NotificationScope) -> (r: bool)
    ensures
        r == (a == b),
{
    match (a, b) {
        (NotificationScope::Private, NotificationScope::Private) => true,
        (NotificationScope::Group, NotificationScope::Group) => true,
        (NotificationScope::Channel, NotificationScope::Channel) => true,
        _ => false,
    }
}

/// Effective mute for a chat. `use_default_mute_for` follows the scope.
/// Unknown settings are unmuted, which is TDLib's default.
#[verifier::loop_isolation(false)]
pub fn chat_is_muted(
    settings: Option<&ChatNotificationSettings>,
    scope: Option<NotificationScope>,
    scopes: &[(NotificationScope, ScopeNotificationState)],
) -> (m: bool)
    ensures
        m == chat_muted_spec(
            match settings { Some(s) => Some(*s), None => None },
            scope,
            scopes@,
        ),
{
    let settings = match settings {
        None => return false,
        Some(s) => s,
    };
    if settings.use_default_mute_for {
        let scope = match scope {
            None => return false,
            Some(sc) => sc,
        };
        let mut i: usize = 0;
        assert(scopes@.skip(0) =~= scopes@);
        while i < scopes.len()
            invariant
                i <= scopes.len(),
                scope_lookup(scopes@, scope) == scope_lookup(scopes@.skip(i as int), scope),
            decreases scopes.len() - i,
        {
            assert(scopes@.skip(i as int).drop_first() =~= scopes@.skip(i + 1));
            assert(scopes@.skip(i as int)[0] == scopes@[i as int]);
            if same_scope(scopes[i].0, scope) {
                return scopes[i].1.muted();
            }
            i += 1;
        }
        return false;
    }
    is_muted(settings.mute_for)
}

/// A chat that stopped following its scope default is muted exactly when
/// its own mute time is not zero, whatever its scope and whatever the
/// scope settings say.
pub proof fn law_own_mute_decides(
    s: ChatNotificationSettings,
    scope: Option<NotificationScope>,
    scopes: Seq<(NotificationScope, ScopeNotificationState)>,
)
    requires
        !s.use_default_mute_for,
    ensures
        chat_muted_spec(Some(s), scope, scopes) == (s.mute_for != 0),
{
}

/// The mute switch decides: a chat switched to muted is muted, and one
/// switched to unmuted is not, whatever its other settings, its scope and
/// the scope settings.
pub proof fn law_mute_switch_decides(
    s: ChatNotificationSettings,
    muted: bool,
    scope: Option<NotificationScope>,
    scopes: Seq<(NotificationScope, ScopeNotificationState)>,
)
    ensures
        chat_muted_spec(
            Some(ChatNotificationSettings { use_default_mute_for: false, mute_for: mute_value(muted), ..s }),
            scope,
            scopes,
        ) == muted,
{
}

/// A chat that follows its scope default is muted exactly when the first
/// settings stored for its scope have a mute time that is not zero; with
/// no settings stored for the scope, or no known scope, it is not muted.
/// Chats without settings are not muted.
pub proof fn law_scope_mute_decides(
    s: ChatNotificationSettings,
    scope: NotificationScope,
    scopes: Seq<(NotificationScope, ScopeNotificationState)>,
    k: int,
)
    requires
        s.use_default_mute_for,
        0 <= k < scopes.len(),
        scopes[k].0 == scope,
        forall|i: int| 0 <= i < k ==> (#[trigger] scopes[i]).0 != scope,
    ensures
        chat_muted_spec(Some(s), Some(scope), scopes) == (scopes[k].1.mute_for != 0),
        chat_muted_spec(Some(s), None, scopes) == false,
        chat_muted_spec(None, Some(scope), scopes) == false,
    decreases k,
{
    if k > 0 {
        assert forall|i: int| 0 <= i < k - 1 implies (#[trigger] scopes.drop_first()[i]).0 != scope by {
            assert(scopes.drop_first()[i] == scopes[i + 1]);
        }
        assert(scopes[0].0 != scope);
        law_scope_mute_decides(s, scope, scopes.drop_first(), k - 1);
    }
}


/// `@extra` of a scope request: the request name, `:` and the scope key.
pub open spec fn scope_extra(prefix: Seq<char>, scope: NotificationScope) -> Seq<char> {
    prefix + ":"@ + scope_key(scope)
}

fn scope_tag(prefix: &str, scope: NotificationScope) -> (s: String)
    ensures
        s@ == scope_extra(prefix@, scope),
{
    let mut s = prefix.to_owned();
    s.append(":");
    s.append(scope.key());
    s
}

/// `r` asks TDLib for the settings of `scope`.
pub open spec fn is_get_scope_request(r: Request, scope: NotificationScope) -> bool {
    r matches Request::GetScopeNotificationSettings { scope: sc, extra } && sc == scope && extra@
        == scope_extra("getScopeNotificationSettings"@, scope)
}

/// The three `getScopeNotificationSettings` requests, private first.
pub fn scope_fetch_requests() -> (r: Vec<Request>)
    ensures
        r.len() == 3,
        is_get_scope_request(r@[0], NotificationScope::Private),
        is_get_scope_request(r@[1], NotificationScope::Group),
        is_get_scope_request(r@[2], NotificationScope::Channel),
{
    let mut r = Vec::new();
    r.push(get_scope_notification_settings(NotificationScope::Private));
    r.push(get_scope_notification_settings(NotificationScope::Group));
    r.push(get_scope_notification_settings(NotificationScope::Channel));
    r
}

/// `getScopeNotificationSettings` for one scope.
pub fn get_scope_notification_settings(scope: NotificationScope) -> (r: Request)
    ensures
        is_get_scope_request(r, scope),
{
    Request::GetScopeNotificationSettings {
        scope,
        extra: scope_tag("getScopeNotificationSettings", scope),
    }
}

/// `setScopeNotificationSettings` with the whole settings object, so fields
/// the caller did not change stay as TDLib last reported them.
pub fn set_scope_notification_settings(
    scope: NotificationScope,
    settings: &ScopeNotificationState,
) -> (r: Request)
    ensures
        r matches Request::SetScopeNotificationSettings { scope: sc, notification_settings, extra }
            && sc == scope && notification_settings == *settings
            && extra@ == scope_extra("setScopeNotificationSettings"@, scope),
{
    Request::SetScopeNotificationSettings {
        scope,
        notification_settings: *settings,
        extra: scope_tag("setScopeNotificationSettings", scope),
    }
}

/// `setChatNotificationSettings` for one chat.
pub fn set_chat_notification_settings(chat_id: i64, settings: &ChatNotificationSettings) -> (r: Request)
    ensures
        r matches Request::SetChatNotificationSettings { chat_id: id, notification_settings, extra }
            && id == chat_id && notification_settings == *settings
            && extra@ == "setChatNotificationSettings:"@ + int_text(chat_id as int),
{
    let mut extra = "setChatNotificationSettings:".to_owned();
    push_int(&mut extra, chat_id);
    Request::SetChatNotificationSettings {
        chat_id,
        notification_settings: *settings,
        extra,
    }
}

/// What follows the last `sep` in `s`, or `None` when `sep` does not occur.
pub open spec fn after_last(s: Seq<char>, sep: char) -> Option<Seq<char>>
    decreases s.len(),
{
    if s.len() == 0 {
        None
    } else if s.last() == sep {
        Some(Seq::empty())
    } else {
        match after_last(s.drop_last(), sep) {
            Some(t) => Some(t.push(s.last())),
            None => None,
        }
    }
}

proof fn lemma_after_last_at(s: Seq<char>, sep: char, k: int)
    requires
        -1 <= k < s.len(),
        forall|j: int| k < j < s.len() ==> #[trigger] s[j] != sep,
        k >= 0 ==> s[k] == sep,
    ensures
        after_last(s, sep) == (if k >= 0 { Some(s.skip(k + 1)) } else { None::<Seq<char>> }),
    decreases s.len(),
{
    if s.len() == 0 {
    } else if k == s.len() - 1 {
        assert(s.skip(k + 1) =~= Seq::<char>::empty());
    } else {
        assert(s.last() != sep);
        lemma_after_last_at(s.drop_last(), sep, k);
        if k >= 0 {
            assert(s.drop_last().skip(k + 1).push(s.last()) =~= s.skip(k + 1));
        }
    }
}

/// The scope named after the last `:` of a request's `@extra`.
pub fn scope_from_extra(extra: &str) -> (r: Option<NotificationScope>)
    ensures
        r == (match after_last(extra@, ':') {
            Some(key) => scope_of_key(key),
            None => None,
        }),
{
    let chars = chars_of(extra);
    let mut i = chars.len();
    while i > 0 && chars[i - 1] != ':'
        invariant
            i <= chars.len(),
            chars@ == extra@,
            forall|j: int| i <= j < chars.len() ==> #[trigger] chars@[j] != ':',
        decreases i,
    {
        i -= 1;
    }
    proof {
        lemma_after_last_at(chars@, ':', i - 1);
    }
    if i == 0 {
        return None;
    }
    let mut key: Vec<char> = Vec::new();
    let mut j = i;
    while j < chars.len()
        invariant
            i <= j <= chars.len(),
            key@ == chars@.subrange(i as int, j as int),
        decreases chars.len() - j,
    {
        key.push(chars[j]);
        j += 1;
    }
    assert(key@ =~= chars@.skip(i as int));
    let key = string_of(key.as_slice());
    NotificationScope::from_key(key.as_str())
}

proof fn lemma_after_last_suffix(prefix: Seq<char>, t: Seq<char>, sep: char)
    requires
        forall|i: int| 0 <= i < t.len() ==> t[i] != sep,
    ensures
        after_last(prefix.push(sep) + t, sep) == Some(t),
    decreases t.len(),
{
    let w = prefix.push(sep) + t;
    if t.len() == 0 {
        assert(w =~= prefix.push(sep));
    } else {
        lemma_after_last_suffix(prefix, t.drop_last(), sep);
        assert(w.drop_last() =~= prefix.push(sep) + t.drop_last());
        assert(w.last() == t.last());
        assert(t.drop_last().push(t.last()) =~= t);
    }
}

/// A request tag that ends in `:` and a scope's key names that scope,
/// whatever comes before: `scope_from_extra` of `p:key` is the scope.
pub proof fn law_scope_from_extra_round_trip(p: Seq<char>, scope: NotificationScope)
    ensures
        after_last(p + ":"@ + scope_key(scope), ':') == Some(scope_key(scope)),
        scope_of_key(scope_key(scope)) == Some(scope),
{
    reveal_strlit(":");
    reveal_strlit("private");
    reveal_strlit("group");
    reveal_strlit("channel");
    assert(p + ":"@ =~= p.push(':'));
    lemma_after_last_suffix(p, scope_key(scope), ':');
}

/// A scope's TDLib `@type` reads back as that scope, and no two scopes
/// share a key or a type.
pub proof fn law_scope_type_round_trip(scope: NotificationScope, other: NotificationScope)
    ensures
        scope_of_type_name(scope_type_name(scope)) == Some(scope),
        scope != other ==> scope_type_name(scope) != scope_type_name(other),
        scope != other ==> scope_key(scope) != scope_key(other),
{
    reveal_strlit("notificationSettingsScopePrivateChats");
    reveal_strlit("notificationSettingsScopeGroupChats");
    reveal_strlit("notificationSettingsScopeChannelChats");
    reveal_strlit("private");
    reveal_strlit("group");
    reveal_strlit("channel");
    assert("notificationSettingsScopePrivateChats"@[25] != "notificationSettingsScopeGroupChats"@[25]);
    assert("notificationSettingsScopePrivateChats"@[25] != "notificationSettingsScopeChannelChats"@[25]);
    assert("notificationSettingsScopeGroupChats"@[25] != "notificationSettingsScopeChannelChats"@[25]);
    assert("private"@[0] != "group"@[0] && "private"@[0] != "channel"@[0] && "group"@[0] != "channel"@[0]);
}

} // verus!
