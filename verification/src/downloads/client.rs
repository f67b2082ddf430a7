//! How the HTTP client of a download session is configured.
//!
//! The client itself is built by the caller; this module decides every
//! value that goes into it.

use vstd::prelude::*;
use crate::settings::config::AppSettings;
use crate::settings::config::ProxyConfig;
use crate::text::append_decimal;
use crate::text::append_str;
use crate::text::decimal;
use crate::text::str_is;
use crate::text::string_of;

verus! {

/// Chrome user agent.
pub const UA_CHROME: &'static str =
    "Mozilla/5.0 (Windows NT 10.0; Win64; x64) AppleWebKit/537.36 (KHTML, like Gecko) Chrome/120.0.0.0 Safari/537.36";

/// Firefox user agent.
pub const UA_FIREFOX: &'static str =
    "Mozilla/5.0 (Windows NT 10.0; Win64; x64; rv:121.0) Gecko/20100101 Firefox/121.0";

/// Edge user agent.
pub const UA_EDGE: &'static str =
    "Mozilla/5.0 (Windows NT 10.0; Win64; x64) AppleWebKit/537.36 (KHTML, like Gecko) Chrome/120.0.0.0 Safari/537.36 Edg/120.0.0.0";

/// Safari user agent.
pub const UA_SAFARI: &'static str =
    "Mozilla/5.0 (Macintosh; Intel Mac OS X 14_2) AppleWebKit/605.1.15 (KHTML, like Gecko) Version/17.2 Safari/605.1.15";

/// The proxy that a client goes through.
#[derive(Debug, Clone, PartialEq, Eq)]
pub struct ProxyPlan {
    /// `<type>://<host>:<port>`, for all traffic.
    pub url: String,
    /// User name and password for basic authentication.
    pub auth: Option<(String, String)>,
}

/// Every value that the HTTP client of a session is built with.
#[derive(Debug, Clone, PartialEq, Eq)]
pub struct ClientPlan {
    /// Overall timeout of a request, in seconds.
    pub timeout_secs: u64,
    /// Timeout for connecting, in seconds.
    pub connect_timeout_secs: u64,
    /// Timeout for each read, in seconds.
    pub read_timeout_secs: u64,
    /// Idle connections kept per host.
    pub pool_max_idle_per_host: usize,
    /// How long an idle connection is kept, in seconds.
    pub pool_idle_timeout_secs: u64,
    /// TCP keep-alive, in seconds.
    pub tcp_keepalive_secs: u64,
    /// The `User-Agent` header.
    pub user_agent: String,
    /// How many redirects are followed.
    pub redirect_limit: usize,
    /// Whether invalid certificates are accepted.
    pub accept_invalid_certs: bool,
    /// Whether only HTTPS is allowed.
    pub https_only: bool,
    /// Whether the HTTP/2 window adapts.
    pub http2_adaptive_window: bool,
    /// Interval of HTTP/2 keep-alive pings, in seconds.
    pub http2_keep_alive_interval_secs: u64,
    /// The proxy, if one is used.
    pub proxy: Option<ProxyPlan>,
}

/// The user agent that the settings ask for: the text of a preset, the
/// custom text for `custom`, and Chrome's for anything else.
pub open spec fn user_agent_spec(preset: Seq<char>, custom: Seq<char>) -> Seq<char> {
    if preset == "chrome"@ {
        UA_CHROME@
    } else if preset == "firefox"@ {
        UA_FIREFOX@
    } else if preset == "edge"@ {
        UA_EDGE@
    } else if preset == "safari"@ {
        UA_SAFARI@
    } else if preset == "custom"@ {
        custom
    } else {
        UA_CHROME@
    }
}

/// The URL of a proxy: `<type>://<host>:<port>`.
pub open spec fn proxy_url_spec(proxy_type: Seq<char>, host: Seq<char>, port: u16) -> Seq<char> {
    proxy_type + "://"@ + host + ":"@ + decimal(port as nat)
}

/// The text of an optional pair of strings.
pub open spec fn auth_texts(auth: Option<(String, String)>) -> Option<(Seq<char>, Seq<char>)> {
    match auth {
        Some((user, password)) => Some((user@, password@)),
        None => None,
    }
}

/// The user agent that the settings ask for.
pub fn get_user_agent(settings: &AppSettings) -> (agent: &str)
    ensures
        agent@ == user_agent_spec(settings.network.user_agent@, settings.network.custom_user_agent@),
{
    let preset = settings.network.user_agent.as_str();
    if str_is(preset, "chrome") {
        UA_CHROME
    } else if str_is(preset, "firefox") {
        UA_FIREFOX
    } else if str_is(preset, "edge") {
        UA_EDGE
    } else if str_is(preset, "safari") {
        UA_SAFARI
    } else if str_is(preset, "custom") {
        settings.network.custom_user_agent.as_str()
    } else {
        UA_CHROME
    }
}

/// The proxy that the settings ask for: none unless the proxy is enabled
/// and has a host; with basic authentication if that is enabled and has a
/// user name.
pub fn proxy_plan(proxy: &ProxyConfig) -> (plan: Option<ProxyPlan>)
    ensures
        (proxy.enabled && proxy.host@.len() > 0) == plan is Some,
        plan matches Some(p) ==> {
            &&& p.url@ == proxy_url_spec(proxy.proxy_type@, proxy.host@, proxy.port)
            &&& auth_texts(p.auth) == if proxy.auth_enabled && proxy.username@.len() > 0 {
                Some((proxy.username@, proxy.password@))
            } else {
                None
            }
        },
{
    if proxy.enabled && !proxy.host.as_str().is_empty() {
        let mut out: Vec<char> = Vec::new();
        append_str(&mut out, proxy.proxy_type.as_str());
        append_str(&mut out, "://");
        append_str(&mut out, proxy.host.as_str());
        append_str(&mut out, ":");
        append_decimal(&mut out, proxy.port as u64);
        proof {
            assert(out@.subrange(0, out@.len() as int) =~= out@);
        }
        let auth = if proxy.auth_enabled && !proxy.username.as_str().is_empty() {
            Some((proxy.username.clone(), proxy.password.clone()))
        } else {
            None
        };
        Some(ProxyPlan { url: string_of(&out, 0, out.len()), auth })
    } else {
        None
    }
}

/// The configuration of the HTTP client for a session with these settings.
///
/// A request may take 300 seconds in all; idle connections, one per
/// worker and host, are kept for 90 seconds; TCP keep-alive is 60 seconds;
/// up to 10 redirects are followed; the HTTP/2 window adapts. Timeouts for
/// connecting and reading, the user agent, the proxy and whether invalid
/// certificates are accepted come from the settings.
pub fn create(settings: &AppSettings) -> (plan: ClientPlan)
    ensures
        plan.timeout_secs == 300,
        plan.connect_timeout_secs == settings.network.connect_timeout_secs,
        plan.read_timeout_secs == settings.network.read_timeout_secs,
        plan.pool_max_idle_per_host == settings.download.num_threads,
        plan.pool_idle_timeout_secs == 90,
        plan.tcp_keepalive_secs == 60,
        plan.user_agent@ == user_agent_spec(
            settings.network.user_agent@,
            settings.network.custom_user_agent@,
        ),
        plan.redirect_limit == 10,
        plan.accept_invalid_certs == settings.network.allow_insecure,
        !plan.https_only,
        plan.http2_adaptive_window,
        plan.http2_keep_alive_interval_secs == 30,
        (settings.network.proxy.enabled && settings.network.proxy.host@.len() > 0)
            == plan.proxy is Some,
        plan.proxy matches Some(p) ==> {
            &&& p.url@ == proxy_url_spec(
                settings.network.proxy.proxy_type@,
                settings.network.proxy.host@,
                settings.network.proxy.port,
            )
            &&& auth_texts(p.auth) == if settings.network.proxy.auth_enabled
                && settings.network.proxy.username@.len() > 0 {
                Some((settings.network.proxy.username@, settings.network.proxy.password@))
            } else {
                None
            }
        },
{
    ClientPlan {
        timeout_secs: 300,
        connect_timeout_secs: settings.network.connect_timeout_secs as u64,
        read_timeout_secs: settings.network.read_timeout_secs as u64,
        pool_max_idle_per_host: settings.download.num_threads as usize,
        pool_idle_timeout_secs: 90,
        tcp_keepalive_secs: 60,
        user_agent: get_user_agent(settings).to_owned(),
        redirect_limit: 10,
        accept_invalid_certs: settings.network.allow_insecure,
        https_only: false,
        http2_adaptive_window: true,
        http2_keep_alive_interval_secs: 30,
        proxy: proxy_plan(&settings.network.proxy),
    }
}

/// How often a failed request is retried, and the delay before the first
/// retry in milliseconds.
pub fn retry_config(settings: &AppSettings) -> (r: (u8, u64))
    ensures
        r.0 == settings.network.retry_count,
        r.1 == settings.network.retry_delay_ms,
{
    (settings.network.retry_count, settings.network.retry_delay_ms as u64)
}

} // verus!
