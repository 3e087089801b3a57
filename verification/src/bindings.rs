//! The shapes in which JavaScript callers pass options and receive settings.
use vstd::prelude::*;

use crate::options::Options;
use crate::strmap::{pair_views, StrMap};
use crate::types::ProxyConfig;

verus! {

/// Options as a JavaScript caller passes them; every field may be left out.
pub struct JsOptions {
    /// Proxy server, `host:port`.
    pub proxy: Option<String>,
    /// Hosts that bypass the proxy, comma-separated.
    pub bypass: Option<String>,
    /// PAC script URL.
    pub pac_url: Option<String>,
    /// Network device or connection to act on.
    pub device: Option<String>,
    /// Act only on the active network devices.
    pub only_active_device: Option<bool>,
    /// Whether to apply concurrently; absent takes the platform default.
    pub concurrent: Option<bool>,
    /// Windows: use the registry in place of WinINet.
    pub use_registry: Option<bool>,
}

/// The manual proxy settings as a JavaScript caller receives them.
pub struct JsProxyInfo {
    pub enable: bool,
    pub same_for_all: bool,
    /// The servers by protocol, as a JSON object.
    pub servers: String,
    pub bypass: String,
}

/// The automatic proxy settings as a JavaScript caller receives them.
pub struct JsPacInfo {
    pub enable: bool,
    pub url: String,
}

/// The proxy settings as a JavaScript caller receives them.
pub struct JsProxyConfig {
    pub proxy: JsProxyInfo,
    pub pac: JsPacInfo,
}

/// The text of an optional string, or empty.
pub open spec fn text_or_empty(s: Option<String>) -> Seq<char> {
    match s {
        Some(t) => t@,
        None => Seq::empty(),
    }
}

/// A flag, or `false` where it is left out.
pub open spec fn flag_or_false(b: Option<bool>) -> bool {
    match b {
        Some(x) => x,
        None => false,
    }
}

fn unwrap_text(s: Option<String>) -> (r: String)
    ensures
        r@ == text_or_empty(s),
{
    match s {
        Some(t) => t,
        None => String::new(),
    }
}

fn unwrap_flag(b: Option<bool>) -> (r: bool)
    ensures
        r == flag_or_false(b),
{
    match b {
        Some(x) => x,
        None => false,
    }
}

/// The library's options for what a JavaScript caller passed: left-out strings are
/// empty, left-out flags are off, and no caller identity or environment is given.
pub fn to_options(js: Option<JsOptions>) -> (r: Options)
    ensures
        js is None ==> {
            &&& r.proxy@ == Seq::<char>::empty()
            &&& r.bypass@ == Seq::<char>::empty()
            &&& r.pac_url@ == Seq::<char>::empty()
            &&& r.device@ == Seq::<char>::empty()
            &&& !r.only_active_device
            &&& r.concurrent is None
            &&& !r.use_registry
        },
        js matches Some(j) ==> {
            &&& r.proxy@ == text_or_empty(j.proxy)
            &&& r.bypass@ == text_or_empty(j.bypass)
            &&& r.pac_url@ == text_or_empty(j.pac_url)
            &&& r.device@ == text_or_empty(j.device)
            &&& r.only_active_device == flag_or_false(j.only_active_device)
            &&& r.concurrent == j.concurrent
            &&& r.use_registry == flag_or_false(j.use_registry)
        },
        r.peer_pid == 0,
        r.peer_uid == 0,
        r.peer_gid == 0,
        r.environment@ == Seq::<String>::empty(),
{
    match js {
        None => Options::new(),
        Some(j) => Options {
            proxy: unwrap_text(j.proxy),
            bypass: unwrap_text(j.bypass),
            pac_url: unwrap_text(j.pac_url),
            device: unwrap_text(j.device),
            only_active_device: unwrap_flag(j.only_active_device),
            peer_pid: 0,
            peer_uid: 0,
            peer_gid: 0,
            environment: Vec::new(),
            concurrent: j.concurrent,
            use_registry: unwrap_flag(j.use_registry),
        },
    }
}

/// The compact JSON text of the object whose members are `entries`, as
/// `serde_json::to_string` writes it for a map ordered by key.
pub uninterp spec fn json_object_text(entries: Seq<(Seq<char>, Seq<char>)>) -> Seq<char>;

/// The JSON object whose members are `entries` (distinct keys), written by
/// `serde_json::to_string` from a map ordered by key. Its documentation names the
/// only ways serialisation fails, a value whose `Serialize` fails or a map key that is
/// no string, and neither can happen to a map from strings to strings: the contract
/// claims a text.
#[verifier::external_body]
fn entries_to_json(entries: &Vec<(String, String)>) -> (r: Option<String>)
    ensures
        r is Some,
        r matches Some(t) ==> t@ == json_object_text(pair_views(entries@)),
{
    let m: std::collections::BTreeMap<&str, &str> = entries.iter().map(|(k, v)| (k.as_str(), v.as_str())).collect();
    serde_json::to_string(&m).ok()
}

/// The servers of a configuration as a JSON object.
pub fn servers_json(servers: &StrMap) -> (r: String)
    ensures
        r@ == json_object_text(servers.entries_view()),
{
    let pairs = servers.to_pairs();
    match entries_to_json(&pairs) {
        Some(t) => t,
        None => String::new(),
    }
}

/// The settings as a JavaScript caller receives them: the same flags, bypass list
/// and URL, and the servers as a JSON object.
pub fn to_js_config(cfg: ProxyConfig) -> (r: JsProxyConfig)
    ensures
        r.proxy.enable == cfg.proxy.enable,
        r.proxy.same_for_all == cfg.proxy.same_for_all,
        r.proxy.servers@ == json_object_text(cfg.proxy.servers.entries_view()),
        r.proxy.bypass@ == cfg.proxy.bypass@,
        r.pac.enable == cfg.pac.enable,
        r.pac.url@ == cfg.pac.url@,
{
    let servers = servers_json(&cfg.proxy.servers);
    JsProxyConfig {
        proxy: JsProxyInfo {
            enable: cfg.proxy.enable,
            same_for_all: cfg.proxy.same_for_all,
            servers,
            bypass: cfg.proxy.bypass,
        },
        pac: JsPacInfo { enable: cfg.pac.enable, url: cfg.pac.url },
    }
}

} // verus!
