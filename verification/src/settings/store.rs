//! Updates of single settings by dotted key, such as `download.num_threads`
//! or `network.proxy.port`.
//!
//! A value of the wrong kind for its setting gives the setting its default.
//! After an update the settings are validated again, so a value out of
//! range is clamped.

use vstd::prelude::*;
use crate::text::append_str;
use crate::text::chars_of;
use crate::text::eq_str;
use crate::text::find_char;
use crate::text::index_of;
use crate::text::str_is;
use crate::text::string_of;
use super::config::AppConfig;
use super::config::AppConfigModel;
use super::config::AppSettings;
use super::config::DownloadConfig;
use super::config::DownloadModel;
use super::config::NetworkConfig;
use super::config::NetworkModel;
use super::config::ProxyConfig;
use super::config::ProxyModel;
use super::config::SessionConfig;
use super::config::SettingsModel;
use super::config::ShortcutConfig;
use super::config::ShortcutModel;
use super::config::validated;

verus! {

/// The value that a setting is given.
#[derive(Debug, Clone, PartialEq, Eq)]
pub enum SettingValue {
    /// True or false.
    Bool(bool),
    /// A whole number that is not negative.
    Unsigned(u64),
    /// A text.
    Text(String),
    /// Anything else: nothing, a negative or fractional number, a list, an
    /// object.
    Other,
}

/// `SettingValue` as plain values.
pub enum ValueModel {
    Bool(bool),
    Unsigned(u64),
    Text(Seq<char>),
    Other,
}

/// A group of settings.
#[derive(Clone, Copy, Debug, PartialEq, Eq, Structural)]
pub enum Section {
    App,
    Shortcuts,
    Download,
    Network,
    Proxy,
    Session,
}

/// Why a setting could not be updated.
#[derive(Clone, Copy, Debug, PartialEq, Eq, Structural)]
pub enum SettingsError {
    /// The key names no setting.
    UnknownKey,
    /// The key names a group of settings, but no setting of that group.
    UnknownField(Section),
}

impl View for SettingValue {
    type V = ValueModel;

    open spec fn view(&self) -> ValueModel {
        match self {
            SettingValue::Bool(b) => ValueModel::Bool(*b),
            SettingValue::Unsigned(n) => ValueModel::Unsigned(*n),
            SettingValue::Text(t) => ValueModel::Text(t@),
            SettingValue::Other => ValueModel::Other,
        }
    }
}

/// The truth value that `value` is, or `default`.
pub open spec fn bool_or(value: ValueModel, default: bool) -> bool {
    match value {
        ValueModel::Bool(b) => b,
        _ => default,
    }
}

/// The number that `value` is, or `default`.
pub open spec fn number_or(value: ValueModel, default: u64) -> u64 {
    match value {
        ValueModel::Unsigned(n) => n,
        _ => default,
    }
}

/// The text that `value` is, or `default`.
pub open spec fn text_or(value: ValueModel, default: Seq<char>) -> Seq<char> {
    match value {
        ValueModel::Text(t) => t,
        _ => default,
    }
}

impl SettingValue {
    /// The truth value that this is, or `default`.
    pub fn bool_or(&self, default: bool) -> (r: bool)
        ensures
            r == bool_or(self@, default),
    {
        match self {
            SettingValue::Bool(b) => *b,
            _ => default,
        }
    }

    /// The number that this is, or `default`.
    pub fn number_or(&self, default: u64) -> (r: u64)
        ensures
            r == number_or(self@, default),
    {
        match self {
            SettingValue::Unsigned(n) => *n,
            _ => default,
        }
    }

    /// The text that this is, or `default`.
    pub fn text_or(&self, default: &str) -> (r: String)
        ensures
            r@ == text_or(self@, default@),
    {
        match self {
            SettingValue::Text(t) => t.clone(),
            _ => default.to_owned(),
        }
    }
}

/// The app settings after `field` was given `value`; `None` when the
/// group has no such setting.
pub open spec fn app_after(m: AppConfigModel, field: Seq<char>, value: ValueModel) -> Option<AppConfigModel> {
    if field == "show_tray_icon"@ {
        Some(AppConfigModel { show_tray_icon: bool_or(value, true), ..m })
    } else if field == "quit_on_close"@ {
        Some(AppConfigModel { quit_on_close: bool_or(value, false), ..m })
    } else if field == "sidebar"@ {
        Some(AppConfigModel { sidebar: text_or(value, "left"@), ..m })
    } else if field == "theme"@ {
        Some(AppConfigModel { theme: text_or(value, "system"@), ..m })
    } else if field == "button_label"@ {
        Some(AppConfigModel { button_label: text_or(value, "both"@), ..m })
    } else if field == "show_download_progress"@ {
        Some(AppConfigModel { show_download_progress: bool_or(value, true), ..m })
    } else if field == "show_segment_progress"@ {
        Some(AppConfigModel { show_segment_progress: bool_or(value, true), ..m })
    } else if field == "autostart"@ {
        Some(AppConfigModel { autostart: bool_or(value, false), ..m })
    } else if field == "auto_resume"@ {
        Some(AppConfigModel { auto_resume: bool_or(value, false), ..m })
    } else {
        None
    }
}

/// Gives the setting `field` of the app settings the value `value`.
pub fn update_app_field(config: &mut AppConfig, field: &str, value: &SettingValue) -> (r: Result<
    (),
    SettingsError,
>)
    ensures
        match app_after(old(config)@, field@, value@) {
            Some(m) => r is Ok && final(config)@ == m,
            None => r == Err::<(), SettingsError>(SettingsError::UnknownField(Section::App))
                && *final(config) == *old(config),
        },
{
    if str_is(field, "show_tray_icon") {
        config.show_tray_icon = value.bool_or(true);
    } else if str_is(field, "quit_on_close") {
        config.quit_on_close = value.bool_or(false);
    } else if str_is(field, "sidebar") {
        config.sidebar = value.text_or("left");
    } else if str_is(field, "theme") {
        config.theme = value.text_or("system");
    } else if str_is(field, "button_label") {
        config.button_label = value.text_or("both");
    } else if str_is(field, "show_download_progress") {
        config.show_download_progress = value.bool_or(true);
    } else if str_is(field, "show_segment_progress") {
        config.show_segment_progress = value.bool_or(true);
    } else if str_is(field, "autostart") {
        config.autostart = value.bool_or(false);
    } else if str_is(field, "auto_resume") {
        config.auto_resume = value.bool_or(false);
    } else {
        return Err(SettingsError::UnknownField(Section::App));
    }
    Ok(())
}

/// The shortcuts settings after `field` was given `value`; `None` when the
/// group has no such setting.
pub open spec fn shortcuts_after(m: ShortcutModel, field: Seq<char>, value: ValueModel) -> Option<ShortcutModel> {
    if field == "go_home"@ {
        Some(ShortcutModel { go_home: text_or(value, ""@), ..m })
    } else if field == "open_settings"@ {
        Some(ShortcutModel { open_settings: text_or(value, ""@), ..m })
    } else if field == "add_download"@ {
        Some(ShortcutModel { add_download: text_or(value, ""@), ..m })
    } else if field == "open_details"@ {
        Some(ShortcutModel { open_details: text_or(value, ""@), ..m })
    } else if field == "open_history"@ {
        Some(ShortcutModel { open_history: text_or(value, ""@), ..m })
    } else if field == "toggle_sidebar"@ {
        Some(ShortcutModel { toggle_sidebar: text_or(value, ""@), ..m })
    } else if field == "cancel_download"@ {
        Some(ShortcutModel { cancel_download: text_or(value, ""@), ..m })
    } else if field == "quit_app"@ {
        Some(ShortcutModel { quit_app: text_or(value, ""@), ..m })
    } else {
        None
    }
}

/// Gives the setting `field` of the shortcuts settings the value `value`.
pub fn update_shortcuts_field(config: &mut ShortcutConfig, field: &str, value: &SettingValue) -> (r: Result<
    (),
    SettingsError,
>)
    ensures
        match shortcuts_after(old(config)@, field@, value@) {
            Some(m) => r is Ok && final(config)@ == m,
            None => r == Err::<(), SettingsError>(SettingsError::UnknownField(Section::Shortcuts))
                && *final(config) == *old(config),
        },
{
    if str_is(field, "go_home") {
        config.go_home = value.text_or("");
    } else if str_is(field, "open_settings") {
        config.open_settings = value.text_or("");
    } else if str_is(field, "add_download") {
        config.add_download = value.text_or("");
    } else if str_is(field, "open_details") {
        config.open_details = value.text_or("");
    } else if str_is(field, "open_history") {
        config.open_history = value.text_or("");
    } else if str_is(field, "toggle_sidebar") {
        config.toggle_sidebar = value.text_or("");
    } else if str_is(field, "cancel_download") {
        config.cancel_download = value.text_or("");
    } else if str_is(field, "quit_app") {
        config.quit_app = value.text_or("");
    } else {
        return Err(SettingsError::UnknownField(Section::Shortcuts));
    }
    Ok(())
}

/// The download settings after `field` was given `value`; `None` when the
/// group has no such setting.
pub open spec fn download_after(m: DownloadModel, field: Seq<char>, value: ValueModel) -> Option<DownloadModel> {
    if field == "download_location"@ {
        Some(DownloadModel { download_location: text_or(value, ""@), ..m })
    } else if field == "num_threads"@ {
        Some(DownloadModel { num_threads: (number_or(value, 8) % 256) as u8, ..m })
    } else if field == "max_concurrent"@ {
        Some(DownloadModel { max_concurrent: (number_or(value, 0) % 256) as u8, ..m })
    } else if field == "speed_limit"@ {
        Some(DownloadModel { speed_limit: number_or(value, 0), ..m })
    } else if field == "conflict_action"@ {
        Some(DownloadModel { conflict_action: text_or(value, "ask"@), ..m })
    } else {
        None
    }
}

/// Gives the setting `field` of the download settings the value `value`.
pub fn update_download_field(config: &mut DownloadConfig, field: &str, value: &SettingValue) -> (r: Result<
    (),
    SettingsError,
>)
    ensures
        match download_after(old(config)@, field@, value@) {
            Some(m) => r is Ok && final(config)@ == m,
            None => r == Err::<(), SettingsError>(SettingsError::UnknownField(Section::Download))
                && *final(config) == *old(config),
        },
{
    if str_is(field, "download_location") {
        config.download_location = value.text_or("");
    } else if str_is(field, "num_threads") {
        config.num_threads = (value.number_or(8) % 256) as u8;
    } else if str_is(field, "max_concurrent") {
        config.max_concurrent = (value.number_or(0) % 256) as u8;
    } else if str_is(field, "speed_limit") {
        config.speed_limit = value.number_or(0);
    } else if str_is(field, "conflict_action") {
        config.conflict_action = value.text_or("ask");
    } else {
        return Err(SettingsError::UnknownField(Section::Download));
    }
    Ok(())
}

/// The network settings after `field` was given `value`; `None` when the
/// group has no such setting.
pub open spec fn network_after(m: NetworkModel, field: Seq<char>, value: ValueModel) -> Option<NetworkModel> {
    if field == "user_agent"@ {
        Some(NetworkModel { user_agent: text_or(value, "chrome"@), ..m })
    } else if field == "custom_user_agent"@ {
        Some(NetworkModel { custom_user_agent: text_or(value, ""@), ..m })
    } else if field == "connect_timeout_secs"@ {
        Some(NetworkModel { connect_timeout_secs: (number_or(value, 15) % 65536) as u16, ..m })
    } else if field == "read_timeout_secs"@ {
        Some(NetworkModel { read_timeout_secs: (number_or(value, 30) % 65536) as u16, ..m })
    } else if field == "retry_count"@ {
        Some(NetworkModel { retry_count: (number_or(value, 3) % 256) as u8, ..m })
    } else if field == "retry_delay_ms"@ {
        Some(NetworkModel { retry_delay_ms: (number_or(value, 1000) % 4294967296) as u32, ..m })
    } else if field == "allow_insecure"@ {
        Some(NetworkModel { allow_insecure: bool_or(value, false), ..m })
    } else {
        None
    }
}

/// Gives the setting `field` of the network settings the value `value`.
pub fn update_network_field(config: &mut NetworkConfig, field: &str, value: &SettingValue) -> (r: Result<
    (),
    SettingsError,
>)
    ensures
        match network_after(old(config)@, field@, value@) {
            Some(m) => r is Ok && final(config)@ == m,
            None => r == Err::<(), SettingsError>(SettingsError::UnknownField(Section::Network))
                && *final(config) == *old(config),
        },
{
    if str_is(field, "user_agent") {
        config.user_agent = value.text_or("chrome");
    } else if str_is(field, "custom_user_agent") {
        config.custom_user_agent = value.text_or("");
    } else if str_is(field, "connect_timeout_secs") {
        config.connect_timeout_secs = (value.number_or(15) % 65536) as u16;
    } else if str_is(field, "read_timeout_secs") {
        config.read_timeout_secs = (value.number_or(30) % 65536) as u16;
    } else if str_is(field, "retry_count") {
        config.retry_count = (value.number_or(3) % 256) as u8;
    } else if str_is(field, "retry_delay_ms") {
        config.retry_delay_ms = (value.number_or(1000) % 4294967296) as u32;
    } else if str_is(field, "allow_insecure") {
        config.allow_insecure = value.bool_or(false);
    } else {
        return Err(SettingsError::UnknownField(Section::Network));
    }
    Ok(())
}

/// The proxy settings after `field` was given `value`; `None` when the
/// group has no such setting.
pub open spec fn proxy_after(m: ProxyModel, field: Seq<char>, value: ValueModel) -> Option<ProxyModel> {
    if field == "enabled"@ {
        Some(ProxyModel { enabled: bool_or(value, false), ..m })
    } else if field == "proxy_type"@ {
        Some(ProxyModel { proxy_type: text_or(value, "http"@), ..m })
    } else if field == "host"@ {
        Some(ProxyModel { host: text_or(value, ""@), ..m })
    } else if field == "port"@ {
        Some(ProxyModel { port: (number_or(value, 8080) % 65536) as u16, ..m })
    } else if field == "auth_enabled"@ {
        Some(ProxyModel { auth_enabled: bool_or(value, false), ..m })
    } else if field == "username"@ {
        Some(ProxyModel { username: text_or(value, ""@), ..m })
    } else if field == "password"@ {
        Some(ProxyModel { password: text_or(value, ""@), ..m })
    } else {
        None
    }
}

/// Gives the setting `field` of the proxy settings the value `value`.
pub fn update_proxy_field(config: &mut ProxyConfig, field: &str, value: &SettingValue) -> (r: Result<
    (),
    SettingsError,
>)
    ensures
        match proxy_after(old(config)@, field@, value@) {
            Some(m) => r is Ok && final(config)@ == m,
            None => r == Err::<(), SettingsError>(SettingsError::UnknownField(Section::Proxy))
                && *final(config) == *old(config),
        },
{
    if str_is(field, "enabled") {
        config.enabled = value.bool_or(false);
    } else if str_is(field, "proxy_type") {
        config.proxy_type = value.text_or("http");
    } else if str_is(field, "host") {
        config.host = value.text_or("");
    } else if str_is(field, "port") {
        config.port = (value.number_or(8080) % 65536) as u16;
    } else if str_is(field, "auth_enabled") {
        config.auth_enabled = value.bool_or(false);
    } else if str_is(field, "username") {
        config.username = value.text_or("");
    } else if str_is(field, "password") {
        config.password = value.text_or("");
    } else {
        return Err(SettingsError::UnknownField(Section::Proxy));
    }
    Ok(())
}

/// The session settings after `field` was given `value`; `None` when the
/// group has no such setting.
pub open spec fn session_after(m: SessionConfig, field: Seq<char>, value: ValueModel) -> Option<SessionConfig> {
    if field == "history"@ {
        Some(SessionConfig { history: bool_or(value, true), ..m })
    } else if field == "metadata"@ {
        Some(SessionConfig { metadata: bool_or(value, true), ..m })
    } else {
        None
    }
}

/// Gives the setting `field` of the session settings the value `value`.
pub fn update_session_field(config: &mut SessionConfig, field: &str, value: &SettingValue) -> (r: Result<
    (),
    SettingsError,
>)
    ensures
        match session_after(old(config)@, field@, value@) {
            Some(m) => r is Ok && final(config)@ == m,
            None => r == Err::<(), SettingsError>(SettingsError::UnknownField(Section::Session))
                && *final(config) == *old(config),
        },
{
    if str_is(field, "history") {
        config.history = value.bool_or(true);
    } else if str_is(field, "metadata") {
        config.metadata = value.bool_or(true);
    } else {
        return Err(SettingsError::UnknownField(Section::Session));
    }
    Ok(())
}

/// The part of `key` before its first dot, and the rest behind that dot;
/// `None` when `key` has no dot.
pub open spec fn split_at_dot(key: Seq<char>) -> Option<(Seq<char>, Seq<char>)> {
    if index_of(key, '.') < key.len() {
        Some((key.subrange(0, index_of(key, '.')), key.subrange(index_of(key, '.') + 1, key.len() as int)))
    } else {
        None
    }
}

/// The settings after the setting that `key` names was given `value`, or
/// why there is no such setting.
///
/// A key is the name of a group and the name of one of its settings, with
/// a dot between them; the proxy settings are the group `network.proxy`;
/// three settings have no group.
pub open spec fn settings_after(m: SettingsModel, key: Seq<char>, value: ValueModel) -> Result<
    SettingsModel,
    SettingsError,
> {
    match split_at_dot(key) {
        None => if key == "send_anonymous_metrics"@ {
            Ok(SettingsModel { send_anonymous_metrics: bool_or(value, false), ..m })
        } else if key == "show_notifications"@ {
            Ok(SettingsModel { show_notifications: bool_or(value, true), ..m })
        } else if key == "notification_sound"@ {
            Ok(SettingsModel { notification_sound: bool_or(value, true), ..m })
        } else {
            Err(SettingsError::UnknownKey)
        },
        Some((section, field)) => match split_at_dot(field) {
            None => if section == "app"@ {
                match app_after(m.app, field, value) {
                    Some(app) => Ok(SettingsModel { app, ..m }),
                    None => Err(SettingsError::UnknownField(Section::App)),
                }
            } else if section == "shortcuts"@ {
                match shortcuts_after(m.shortcuts, field, value) {
                    Some(shortcuts) => Ok(SettingsModel { shortcuts, ..m }),
                    None => Err(SettingsError::UnknownField(Section::Shortcuts)),
                }
            } else if section == "download"@ {
                match download_after(m.download, field, value) {
                    Some(download) => Ok(SettingsModel { download, ..m }),
                    None => Err(SettingsError::UnknownField(Section::Download)),
                }
            } else if section == "network"@ {
                match network_after(m.network, field, value) {
                    Some(network) => Ok(SettingsModel { network, ..m }),
                    None => Err(SettingsError::UnknownField(Section::Network)),
                }
            } else if section == "session"@ {
                match session_after(m.session, field, value) {
                    Some(session) => Ok(SettingsModel { session, ..m }),
                    None => Err(SettingsError::UnknownField(Section::Session)),
                }
            } else {
                Err(SettingsError::UnknownKey)
            },
            Some((group, name)) => if section == "network"@ && group == "proxy"@ && split_at_dot(
                name,
            ) is None {
                match proxy_after(m.network.proxy, name, value) {
                    Some(proxy) => Ok(
                        SettingsModel { network: NetworkModel { proxy, ..m.network }, ..m },
                    ),
                    None => Err(SettingsError::UnknownField(Section::Proxy)),
                }
            } else {
                Err(SettingsError::UnknownKey)
            },
        },
    }
}

/// The text of an error about the key `key`.
pub open spec fn error_text(e: SettingsError, key: Seq<char>) -> Seq<char> {
    match e {
        SettingsError::UnknownKey => "Unknown setting key: "@ + key,
        SettingsError::UnknownField(section) => (match section {
            Section::App => "Unknown app field: "@,
            Section::Shortcuts => "Unknown shortcuts field: "@,
            Section::Download => "Unknown download field: "@,
            Section::Network => "Unknown network field: "@,
            Section::Proxy => "Unknown proxy field: "@,
            Section::Session => "Unknown session field: "@,
        }) + last_part(key),
    }
}

/// The part of `key` behind its last dot; all of `key` when it has none.
pub open spec fn last_part(key: Seq<char>) -> Seq<char>
    decreases key.len(),
{
    match split_at_dot(key) {
        Some((_, rest)) => if rest.len() < key.len() {
            last_part(rest)
        } else {
            key
        },
        None => key,
    }
}

impl SettingsError {
    /// The text of this error for a request to update the setting `key`.
    pub fn message(&self, key: &str) -> (text: String)
        ensures
            text@ == error_text(*self, key@),
    {
        let mut out: Vec<char> = Vec::new();
        match self {
            SettingsError::UnknownKey => {
                append_str(&mut out, "Unknown setting key: ");
                append_str(&mut out, key);
            },
            SettingsError::UnknownField(section) => {
                match section {
                    Section::App => append_str(&mut out, "Unknown app field: "),
                    Section::Shortcuts => append_str(&mut out, "Unknown shortcuts field: "),
                    Section::Download => append_str(&mut out, "Unknown download field: "),
                    Section::Network => append_str(&mut out, "Unknown network field: "),
                    Section::Proxy => append_str(&mut out, "Unknown proxy field: "),
                    Section::Session => append_str(&mut out, "Unknown session field: "),
                }
                let chars = chars_of(key);
                let n = chars.len();
                let mut from: usize = 0;
                proof {
                    assert(chars@.subrange(0, n as int) =~= chars@);
                }
                loop
                    invariant
                        from <= n,
                        n == chars@.len(),
                        chars@ == key@,
                        last_part(key@) == last_part(chars@.subrange(from as int, n as int)),
                    ensures
                        from <= n,
                        n == chars@.len(),
                        last_part(key@) == chars@.subrange(from as int, n as int),
                    decreases n - from,
                {
                    let ghost rest = chars@.subrange(from as int, n as int);
                    let dot = find_char(&chars, from, n, '.');
                    if dot >= n {
                        break;
                    }
                    proof {
                        assert(rest.subrange(dot - from + 1, rest.len() as int) =~= chars@.subrange(
                            dot + 1,
                            n as int,
                        ));
                    }
                    from = dot + 1;
                }
                let mut tail = string_tail(&chars, from);
                out.append(&mut tail);
            },
        }
        proof {
            assert(out@.subrange(0, out@.len() as int) =~= out@);
        }
        string_of(&out, 0, out.len())
    }
}

/// The characters of `chars` from `from` on.
fn string_tail(chars: &Vec<char>, from: usize) -> (tail: Vec<char>)
    requires
        from <= chars@.len(),
    ensures
        tail@ == chars@.subrange(from as int, chars@.len() as int),
{
    let mut tail: Vec<char> = Vec::new();
    let mut i = from;
    while i < chars.len()
        invariant
            from <= i <= chars@.len(),
            tail@ == chars@.subrange(from as int, i as int),
        decreases chars@.len() - i,
    {
        proof {
            assert(chars@.subrange(from as int, i + 1) =~= chars@.subrange(from as int, i as int).push(
                chars@[i as int],
            ));
        }
        tail.push(chars[i]);
        i = i + 1;
    }
    tail
}

/// Gives the setting that `key` names the value `value` and validates the
/// settings again. When the key names no setting, the settings stay as
/// they are.
pub fn update_field(settings: &mut AppSettings, key: &str, value: &SettingValue) -> (r: Result<
    (),
    SettingsError,
>)
    ensures
        match settings_after(old(settings)@, key@, value@) {
            Ok(m) => r is Ok && final(settings)@ == validated(m) && final(settings).valid(),
            Err(e) => r == Err::<(), SettingsError>(e) && *final(settings) == *old(settings),
        },
{
    let chars = chars_of(key);
    let n = chars.len();
    proof {
        assert(chars@.subrange(0, n as int) =~= chars@);
    }
    let first = find_char(&chars, 0, n, '.');
    if first >= n {
        if str_is(key, "send_anonymous_metrics") {
            settings.send_anonymous_metrics = value.bool_or(false);
        } else if str_is(key, "show_notifications") {
            settings.show_notifications = value.bool_or(true);
        } else if str_is(key, "notification_sound") {
            settings.notification_sound = value.bool_or(true);
        } else {
            return Err(SettingsError::UnknownKey);
        }
        settings.validate();
        return Ok(());
    }
    let ghost section = chars@.subrange(0, first as int);
    let ghost rest = chars@.subrange(first + 1, n as int);
    let second = find_char(&chars, first + 1, n, '.');
    let field = string_of(&chars, first + 1, n);
    if second >= n {
        let done = if eq_str(&chars, 0, first, "app") {
            update_app_field(&mut settings.app, field.as_str(), value)
        } else if eq_str(&chars, 0, first, "shortcuts") {
            update_shortcuts_field(&mut settings.shortcuts, field.as_str(), value)
        } else if eq_str(&chars, 0, first, "download") {
            update_download_field(&mut settings.download, field.as_str(), value)
        } else if eq_str(&chars, 0, first, "network") {
            update_network_field(&mut settings.network, field.as_str(), value)
        } else if eq_str(&chars, 0, first, "session") {
            update_session_field(&mut settings.session, field.as_str(), value)
        } else {
            Err(SettingsError::UnknownKey)
        };
        return match done {
            Ok(()) => {
                settings.validate();
                Ok(())
            },
            Err(e) => Err(e),
        };
    }
    let third = find_char(&chars, second + 1, n, '.');
    proof {
        assert(rest.subrange(0, second - first - 1) =~= chars@.subrange(first + 1, second as int));
        assert(rest.subrange(second - first, rest.len() as int) =~= chars@.subrange(
            second + 1,
            n as int,
        ));
    }
    if third >= n && eq_str(&chars, 0, first, "network") && eq_str(
        &chars,
        first + 1,
        second,
        "proxy",
    ) {
        let name = string_of(&chars, second + 1, n);
        match update_proxy_field(&mut settings.network.proxy, name.as_str(), value) {
            Ok(()) => {
                settings.validate();
                Ok(())
            },
            Err(e) => Err(e),
        }
    } else {
        Err(SettingsError::UnknownKey)
    }
}

} // verus!
