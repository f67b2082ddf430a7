//! The settings schema, its defaults, and the ranges that values are
//! clamped to. Code that reads validated settings relies on those ranges.

use vstd::prelude::*;
use crate::text::str_is;

verus! {

/// Main application settings container.
#[derive(Debug, Clone)]
pub struct AppSettings {
    pub app: AppConfig,
    pub shortcuts: ShortcutConfig,
    pub download: DownloadConfig,
    pub network: NetworkConfig,
    pub session: SessionConfig,
    pub send_anonymous_metrics: bool,
    pub show_notifications: bool,
    pub notification_sound: bool,
}

/// General application configuration.
#[derive(Debug, Clone)]
pub struct AppConfig {
    pub show_tray_icon: bool,
    pub quit_on_close: bool,
    pub sidebar: String,
    pub theme: String,
    pub button_label: String,
    pub show_download_progress: bool,
    pub show_segment_progress: bool,
    pub autostart: bool,
    /// Resume incomplete downloads when the app starts.
    pub auto_resume: bool,
}

/// Keyboard shortcut bindings.
#[derive(Debug, Clone)]
pub struct ShortcutConfig {
    pub go_home: String,
    pub open_settings: String,
    pub add_download: String,
    pub open_details: String,
    pub open_history: String,
    pub toggle_sidebar: String,
    pub cancel_download: String,
    pub quit_app: String,
}

/// Download behavior configuration.
#[derive(Debug, Clone)]
pub struct DownloadConfig {
    /// Default download directory.
    pub download_location: String,
    /// Number of connections per download (1-64).
    pub num_threads: u8,
    /// Maximum concurrent downloads (0 = unlimited, at most 32).
    pub max_concurrent: u8,
    /// Global speed limit in bytes/sec (0 = unlimited).
    pub speed_limit: u64,
    /// How to handle filename conflicts: "rename", "overwrite", "skip",
    /// "ask".
    pub conflict_action: String,
}

/// Network and HTTP client configuration.
#[derive(Debug, Clone)]
pub struct NetworkConfig {
    /// User agent preset: "chrome", "firefox", "edge", "safari", "custom".
    pub user_agent: String,
    /// Custom user agent string (used when `user_agent` is "custom").
    pub custom_user_agent: String,
    /// Connection timeout in seconds (1-300).
    pub connect_timeout_secs: u16,
    /// Read timeout in seconds per chunk (1-300).
    pub read_timeout_secs: u16,
    /// Number of retry attempts on failure (0-10).
    pub retry_count: u8,
    /// Delay between retries in milliseconds.
    pub retry_delay_ms: u32,
    /// Allow invalid/self-signed SSL certificates.
    pub allow_insecure: bool,
    /// Proxy configuration.
    pub proxy: ProxyConfig,
}

/// Proxy server configuration.
#[derive(Debug, Clone)]
pub struct ProxyConfig {
    /// Enable proxy.
    pub enabled: bool,
    /// Proxy type: "http", "https", "socks5".
    pub proxy_type: String,
    /// Proxy host.
    pub host: String,
    /// Proxy port.
    pub port: u16,
    /// Enable proxy authentication.
    pub auth_enabled: bool,
    /// Proxy username.
    pub username: String,
    /// Proxy password.
    pub password: String,
}

/// Session and data retention settings.
#[derive(Debug, Clone)]
pub struct SessionConfig {
    /// Store download history in the database.
    pub history: bool,
    /// Save metadata on pause/cancel for resume.
    pub metadata: bool,
}

/// `AppConfig` as plain values.
pub struct AppConfigModel {
    pub show_tray_icon: bool,
    pub quit_on_close: bool,
    pub sidebar: Seq<char>,
    pub theme: Seq<char>,
    pub button_label: Seq<char>,
    pub show_download_progress: bool,
    pub show_segment_progress: bool,
    pub autostart: bool,
    pub auto_resume: bool,
}

/// `ShortcutConfig` as plain values.
pub struct ShortcutModel {
    pub go_home: Seq<char>,
    pub open_settings: Seq<char>,
    pub add_download: Seq<char>,
    pub open_details: Seq<char>,
    pub open_history: Seq<char>,
    pub toggle_sidebar: Seq<char>,
    pub cancel_download: Seq<char>,
    pub quit_app: Seq<char>,
}

/// `DownloadConfig` as plain values.
pub struct DownloadModel {
    pub download_location: Seq<char>,
    pub num_threads: u8,
    pub max_concurrent: u8,
    pub speed_limit: u64,
    pub conflict_action: Seq<char>,
}

/// `ProxyConfig` as plain values.
pub struct ProxyModel {
    pub enabled: bool,
    pub proxy_type: Seq<char>,
    pub host: Seq<char>,
    pub port: u16,
    pub auth_enabled: bool,
    pub username: Seq<char>,
    pub password: Seq<char>,
}

/// `NetworkConfig` as plain values.
pub struct NetworkModel {
    pub user_agent: Seq<char>,
    pub custom_user_agent: Seq<char>,
    pub connect_timeout_secs: u16,
    pub read_timeout_secs: u16,
    pub retry_count: u8,
    pub retry_delay_ms: u32,
    pub allow_insecure: bool,
    pub proxy: ProxyModel,
}

/// `AppSettings` as plain values.
pub struct SettingsModel {
    pub app: AppConfigModel,
    pub shortcuts: ShortcutModel,
    pub download: DownloadModel,
    pub network: NetworkModel,
    pub session: SessionConfig,
    pub send_anonymous_metrics: bool,
    pub show_notifications: bool,
    pub notification_sound: bool,
}

impl View for AppConfig {
    type V = AppConfigModel;

    open spec fn view(&self) -> AppConfigModel {
        AppConfigModel {
            show_tray_icon: self.show_tray_icon,
            quit_on_close: self.quit_on_close,
            sidebar: self.sidebar@,
            theme: self.theme@,
            button_label: self.button_label@,
            show_download_progress: self.show_download_progress,
            show_segment_progress: self.show_segment_progress,
            autostart: self.autostart,
            auto_resume: self.auto_resume,
        }
    }
}

impl View for ShortcutConfig {
    type V = ShortcutModel;

    open spec fn view(&self) -> ShortcutModel {
        ShortcutModel {
            go_home: self.go_home@,
            open_settings: self.open_settings@,
            add_download: self.add_download@,
            open_details: self.open_details@,
            open_history: self.open_history@,
            toggle_sidebar: self.toggle_sidebar@,
            cancel_download: self.cancel_download@,
            quit_app: self.quit_app@,
        }
    }
}

impl View for DownloadConfig {
    type V = DownloadModel;

    open spec fn view(&self) -> DownloadModel {
        DownloadModel {
            download_location: self.download_location@,
            num_threads: self.num_threads,
            max_concurrent: self.max_concurrent,
            speed_limit: self.speed_limit,
            conflict_action: self.conflict_action@,
        }
    }
}

impl View for ProxyConfig {
    type V = ProxyModel;

    open spec fn view(&self) -> ProxyModel {
        ProxyModel {
            enabled: self.enabled,
            proxy_type: self.proxy_type@,
            host: self.host@,
            port: self.port,
            auth_enabled: self.auth_enabled,
            username: self.username@,
            password: self.password@,
        }
    }
}

impl View for NetworkConfig {
    type V = NetworkModel;

    open spec fn view(&self) -> NetworkModel {
        NetworkModel {
            user_agent: self.user_agent@,
            custom_user_agent: self.custom_user_agent@,
            connect_timeout_secs: self.connect_timeout_secs,
            read_timeout_secs: self.read_timeout_secs,
            retry_count: self.retry_count,
            retry_delay_ms: self.retry_delay_ms,
            allow_insecure: self.allow_insecure,
            proxy: self.proxy@,
        }
    }
}

impl View for SessionConfig {
    type V = SessionConfig;

    open spec fn view(&self) -> SessionConfig {
        *self
    }
}

impl View for AppSettings {
    type V = SettingsModel;

    open spec fn view(&self) -> SettingsModel {
        SettingsModel {
            app: self.app@,
            shortcuts: self.shortcuts@,
            download: self.download@,
            network: self.network@,
            session: self.session,
            send_anonymous_metrics: self.send_anonymous_metrics,
            show_notifications: self.show_notifications,
            notification_sound: self.notification_sound,
        }
    }
}

/// Download settings with every value clamped into its range.
pub open spec fn validated_download(m: DownloadModel) -> DownloadModel {
    DownloadModel {
        num_threads: clamped(m.num_threads as int, 1, 64) as u8,
        max_concurrent: clamped(m.max_concurrent as int, 0, 32) as u8,
        conflict_action: if is_conflict_action(m.conflict_action) {
            m.conflict_action
        } else {
            "ask"@
        },
        ..m
    }
}

/// Network settings with every value clamped into its range.
pub open spec fn validated_network(m: NetworkModel) -> NetworkModel {
    NetworkModel {
        connect_timeout_secs: clamped(m.connect_timeout_secs as int, 1, 300) as u16,
        read_timeout_secs: clamped(m.read_timeout_secs as int, 1, 300) as u16,
        retry_count: clamped(m.retry_count as int, 0, 10) as u8,
        user_agent: if is_user_agent(m.user_agent) {
            m.user_agent
        } else {
            "chrome"@
        },
        proxy: ProxyModel {
            proxy_type: if is_proxy_type(m.proxy.proxy_type) {
                m.proxy.proxy_type
            } else {
                "http"@
            },
            ..m.proxy
        },
        ..m
    }
}

/// Settings with every value clamped into its range.
pub open spec fn validated(m: SettingsModel) -> SettingsModel {
    SettingsModel {
        download: validated_download(m.download),
        network: validated_network(m.network),
        ..m
    }
}

/// `v` clamped to `[lo, hi]`.
pub open spec fn clamped(v: int, lo: int, hi: int) -> int {
    if v < lo {
        lo
    } else if v > hi {
        hi
    } else {
        v
    }
}

/// A valid conflict action.
pub open spec fn is_conflict_action(s: Seq<char>) -> bool {
    s == "rename"@ || s == "overwrite"@ || s == "skip"@ || s == "ask"@
}

/// A valid user agent preset.
pub open spec fn is_user_agent(s: Seq<char>) -> bool {
    s == "chrome"@ || s == "firefox"@ || s == "edge"@ || s == "safari"@ || s == "custom"@
}

/// A valid proxy type.
pub open spec fn is_proxy_type(s: Seq<char>) -> bool {
    s == "http"@ || s == "https"@ || s == "socks5"@
}

impl DownloadConfig {
    /// The values are in their ranges.
    pub open spec fn valid(&self) -> bool {
        &&& 1 <= self.num_threads <= 64
        &&& self.max_concurrent <= 32
        &&& is_conflict_action(self.conflict_action@)
    }

    /// Clamps the values into their ranges: 1 to 64 connections, at most 32
    /// concurrent downloads, and `ask` for an unknown conflict action.
    pub fn validate(&mut self)
        ensures
            final(self).valid(),
            final(self)@ == validated_download(old(self)@),
    {
        if self.num_threads < 1 {
            self.num_threads = 1;
        } else if self.num_threads > 64 {
            self.num_threads = 64;
        }
        if self.max_concurrent > 32 {
            self.max_concurrent = 32;
        }
        let known = str_is(self.conflict_action.as_str(), "rename") || str_is(
            self.conflict_action.as_str(),
            "overwrite",
        ) || str_is(self.conflict_action.as_str(), "skip") || str_is(
            self.conflict_action.as_str(),
            "ask",
        );
        if !known {
            self.conflict_action = "ask".to_owned();
        }
    }
}

impl NetworkConfig {
    /// The values are in their ranges.
    pub open spec fn valid(&self) -> bool {
        &&& 1 <= self.connect_timeout_secs <= 300
        &&& 1 <= self.read_timeout_secs <= 300
        &&& self.retry_count <= 10
        &&& is_user_agent(self.user_agent@)
        &&& is_proxy_type(self.proxy.proxy_type@)
    }

    /// Clamps the values into their ranges: timeouts of 1 to 300 seconds,
    /// at most 10 retries, `chrome` for an unknown user agent and `http`
    /// for an unknown proxy type.
    pub fn validate(&mut self)
        ensures
            final(self).valid(),
            final(self)@ == validated_network(old(self)@),
    {
        if self.connect_timeout_secs < 1 {
            self.connect_timeout_secs = 1;
        } else if self.connect_timeout_secs > 300 {
            self.connect_timeout_secs = 300;
        }
        if self.read_timeout_secs < 1 {
            self.read_timeout_secs = 1;
        } else if self.read_timeout_secs > 300 {
            self.read_timeout_secs = 300;
        }
        if self.retry_count > 10 {
            self.retry_count = 10;
        }
        let agent = str_is(self.user_agent.as_str(), "chrome") || str_is(
            self.user_agent.as_str(),
            "firefox",
        ) || str_is(self.user_agent.as_str(), "edge") || str_is(self.user_agent.as_str(), "safari")
            || str_is(self.user_agent.as_str(), "custom");
        if !agent {
            self.user_agent = "chrome".to_owned();
        }
        let proxy = str_is(self.proxy.proxy_type.as_str(), "http") || str_is(
            self.proxy.proxy_type.as_str(),
            "https",
        ) || str_is(self.proxy.proxy_type.as_str(), "socks5");
        if !proxy {
            self.proxy.proxy_type = "http".to_owned();
        }
    }
}

impl AppSettings {
    /// The download and network settings are in their ranges.
    pub open spec fn valid(&self) -> bool {
        self.download.valid() && self.network.valid()
    }

    /// Clamps the download and network settings into their ranges; every
    /// other setting stays as it is.
    pub fn validate(&mut self)
        ensures
            final(self).valid(),
            final(self)@ == validated(old(self)@),
    {
        self.download.validate();
        self.network.validate();
    }
}

/// `dirs::download_dir`, as text.
///
/// Nothing is claimed of the result: it depends on the user's environment.
/// It is `None` when the platform names no download directory or its path
/// is not valid Unicode.
#[verifier::external_body]
pub(crate) fn system_download_dir() -> (dir: Option<String>) {
    dirs::download_dir().and_then(|path| path.to_str().map(|s| s.to_string()))
}

/// `dirs::home_dir`, as text.
///
/// Nothing is claimed of the result: it depends on the user's environment.
/// It is `None` when no home directory is found or its path is not valid
/// Unicode.
#[verifier::external_body]
pub(crate) fn system_home_dir() -> (dir: Option<String>) {
    dirs::home_dir().and_then(|path| path.to_str().map(|s| s.to_string()))
}

/// `std::path::Path::join`, as text.
///
/// Nothing is claimed of the result: how a name is joined to a directory
/// depends on the platform.
#[verifier::external_body]
pub(crate) fn join_path(dir: &str, name: &str) -> (path: Option<String>) {
    std::path::Path::new(dir).join(name).to_str().map(|s| s.to_string())
}

/// The directory that downloads go to by default: the platform's download
/// directory if there is one, else `Downloads` under the home directory if
/// there is one, else `./downloads`.
pub fn choose_download_dir(download_dir: Option<String>, home_downloads: Option<String>) -> (dir:
    String)
    ensures
        dir@ == match download_dir {
            Some(d) => d@,
            None => match home_downloads {
                Some(h) => h@,
                None => "./downloads"@,
            },
        },
{
    match download_dir {
        Some(d) => d,
        None => match home_downloads {
            Some(h) => h,
            None => "./downloads".to_owned(),
        },
    }
}

/// The directory that downloads go to by default on this machine.
pub fn get_default_download_dir() -> (dir: String) {
    let download_dir = system_download_dir();
    let home_downloads = match system_home_dir() {
        Some(home) => join_path(home.as_str(), "Downloads"),
        None => None,
    };
    choose_download_dir(download_dir, home_downloads)
}

/// The session settings of a fresh installation.
pub open spec fn default_session() -> SessionConfig {
    SessionConfig { history: true, metadata: true }
}

/// The proxy settings of a fresh installation.
pub open spec fn default_proxy() -> ProxyModel {
    ProxyModel {
        enabled: false,
        proxy_type: "http"@,
        host: ""@,
        port: 8080,
        auth_enabled: false,
        username: ""@,
        password: ""@,
    }
}

/// The network settings of a fresh installation.
pub open spec fn default_network() -> NetworkModel {
    NetworkModel {
        user_agent: "chrome"@,
        custom_user_agent: ""@,
        connect_timeout_secs: 15,
        read_timeout_secs: 30,
        retry_count: 3,
        retry_delay_ms: 1000,
        allow_insecure: false,
        proxy: default_proxy(),
    }
}

/// The download settings of a fresh installation that saves to `location`.
pub open spec fn default_download(location: Seq<char>) -> DownloadModel {
    DownloadModel {
        download_location: location,
        num_threads: 8,
        max_concurrent: 0,
        speed_limit: 0,
        conflict_action: "ask"@,
    }
}

/// The shortcuts of a fresh installation.
pub open spec fn default_shortcuts() -> ShortcutModel {
    ShortcutModel {
        go_home: "Ctrl+K"@,
        open_settings: "Ctrl+P"@,
        add_download: "Ctrl+N"@,
        open_details: "Ctrl+D"@,
        open_history: "Ctrl+H"@,
        toggle_sidebar: "Ctrl+L"@,
        cancel_download: "Ctrl+C"@,
        quit_app: "Ctrl+Q"@,
    }
}

/// The application settings of a fresh installation.
pub open spec fn default_app() -> AppConfigModel {
    AppConfigModel {
        show_tray_icon: true,
        quit_on_close: false,
        sidebar: "left"@,
        theme: "system"@,
        button_label: "both"@,
        show_download_progress: true,
        show_segment_progress: true,
        autostart: false,
        auto_resume: false,
    }
}

/// The settings of a fresh installation that saves to `location`.
pub open spec fn default_settings(location: Seq<char>) -> SettingsModel {
    SettingsModel {
        app: default_app(),
        shortcuts: default_shortcuts(),
        download: default_download(location),
        network: default_network(),
        session: default_session(),
        send_anonymous_metrics: false,
        show_notifications: true,
        notification_sound: true,
    }
}

impl Default for SessionConfig {
    fn default() -> (r: SessionConfig)
        ensures
            r == default_session(),
    {
        SessionConfig { history: true, metadata: true }
    }
}

impl Default for ProxyConfig {
    fn default() -> (r: ProxyConfig)
        ensures
            r@ == default_proxy(),
    {
        ProxyConfig {
            enabled: false,
            proxy_type: "http".to_owned(),
            host: "".to_owned(),
            port: 8080,
            auth_enabled: false,
            username: "".to_owned(),
            password: "".to_owned(),
        }
    }
}

impl Default for NetworkConfig {
    fn default() -> (r: NetworkConfig)
        ensures
            r@ == default_network(),
            r.valid(),
    {
        NetworkConfig {
            user_agent: "chrome".to_owned(),
            custom_user_agent: "".to_owned(),
            connect_timeout_secs: 15,
            read_timeout_secs: 30,
            retry_count: 3,
            retry_delay_ms: 1000,
            allow_insecure: false,
            proxy: ProxyConfig::default(),
        }
    }
}

impl Default for DownloadConfig {
    /// The download location is the platform's default, which depends on
    /// the user's environment.
    fn default() -> (r: DownloadConfig)
        ensures
            r@ == default_download(r.download_location@),
            r.valid(),
    {
        DownloadConfig {
            download_location: get_default_download_dir(),
            num_threads: 8,
            max_concurrent: 0,
            speed_limit: 0,
            conflict_action: "ask".to_owned(),
        }
    }
}

impl Default for ShortcutConfig {
    fn default() -> (r: ShortcutConfig)
        ensures
            r@ == default_shortcuts(),
    {
        ShortcutConfig {
            go_home: "Ctrl+K".to_owned(),
            open_settings: "Ctrl+P".to_owned(),
            add_download: "Ctrl+N".to_owned(),
            open_details: "Ctrl+D".to_owned(),
            open_history: "Ctrl+H".to_owned(),
            toggle_sidebar: "Ctrl+L".to_owned(),
            cancel_download: "Ctrl+C".to_owned(),
            quit_app: "Ctrl+Q".to_owned(),
        }
    }
}

impl Default for AppConfig {
    fn default() -> (r: AppConfig)
        ensures
            r@ == default_app(),
    {
        AppConfig {
            show_tray_icon: true,
            quit_on_close: false,
            sidebar: "left".to_owned(),
            theme: "system".to_owned(),
            button_label: "both".to_owned(),
            show_download_progress: true,
            show_segment_progress: true,
            autostart: false,
            auto_resume: false,
        }
    }
}

impl Default for AppSettings {
    /// The download location is the platform's default, which depends on
    /// the user's environment.
    fn default() -> (r: AppSettings)
        ensures
            r@ == default_settings(r.download.download_location@),
            r.valid(),
    {
        AppSettings {
            app: AppConfig::default(),
            shortcuts: ShortcutConfig::default(),
            download: DownloadConfig::default(),
            network: NetworkConfig::default(),
            session: SessionConfig::default(),
            send_anonymous_metrics: false,
            show_notifications: true,
            notification_sound: true,
        }
    }
}

} // verus!
