//! The options that every operation takes, and the platform defaults.
use vstd::prelude::*;

use crate::types::{ConfigView, ProxyConfig};

verus! {

/// Options for setting, clearing, querying and watching the proxy.
pub struct Options {
    /// Proxy server, `host:port`.
    pub proxy: String,
    /// Hosts that bypass the proxy, comma-separated.
    pub bypass: String,
    /// PAC script URL.
    pub pac_url: String,
    /// Network device or connection to act on.
    pub device: String,
    /// Act only on the active network devices.
    pub only_active_device: bool,
    /// Process id of the caller (Linux).
    pub peer_pid: i32,
    /// User id of the caller (Linux).
    pub peer_uid: u32,
    /// Group id of the caller (Linux).
    pub peer_gid: u32,
    /// Environment of the caller as `KEY=VALUE` items (Linux).
    pub environment: Vec<String>,
    /// Whether to apply concurrently; `None` takes the platform default.
    pub concurrent: Option<bool>,
    /// Windows: use the registry in place of WinINet.
    pub use_registry: bool,
}

impl Options {
    /// All strings empty, all flags off, all ids zero, no concurrency preference.
    pub fn new() -> (r: Options)
        ensures
            r.proxy@ == Seq::<char>::empty(),
            r.bypass@ == Seq::<char>::empty(),
            r.pac_url@ == Seq::<char>::empty(),
            r.device@ == Seq::<char>::empty(),
            !r.only_active_device,
            r.peer_pid == 0,
            r.peer_uid == 0,
            r.peer_gid == 0,
            r.environment@ == Seq::<String>::empty(),
            r.concurrent is None,
            !r.use_registry,
    {
        Options {
            proxy: String::new(),
            bypass: String::new(),
            pac_url: String::new(),
            device: String::new(),
            only_active_device: false,
            peer_pid: 0,
            peer_uid: 0,
            peer_gid: 0,
            environment: Vec::new(),
            concurrent: None,
            use_registry: false,
        }
    }
}

impl Default for Options {
    fn default() -> (r: Options)
        ensures
            r.proxy@ == Seq::<char>::empty(),
            r.bypass@ == Seq::<char>::empty(),
            r.pac_url@ == Seq::<char>::empty(),
            r.device@ == Seq::<char>::empty(),
            !r.only_active_device,
            r.peer_pid == 0,
            r.peer_uid == 0,
            r.peer_gid == 0,
            r.environment@ == Seq::<String>::empty(),
            r.concurrent is None,
            !r.use_registry,
    {
        Options::new()
    }
}

/// The operating system that the library acts on.
#[derive(Clone, Copy, PartialEq, Eq, Structural, Debug)]
pub enum Platform {
    Linux,
    MacOs,
    Windows,
    Other,
}

/// The proxy requested in `opt`, or empty.
pub open spec fn opt_proxy(opt: Option<&Options>) -> Seq<char> {
    match opt {
        Some(o) => o.proxy@,
        None => Seq::empty(),
    }
}

/// The bypass list requested in `opt`, or empty.
pub open spec fn opt_bypass(opt: Option<&Options>) -> Seq<char> {
    match opt {
        Some(o) => o.bypass@,
        None => Seq::empty(),
    }
}

/// The PAC URL requested in `opt`, or empty.
pub open spec fn opt_pac_url(opt: Option<&Options>) -> Seq<char> {
    match opt {
        Some(o) => o.pac_url@,
        None => Seq::empty(),
    }
}

/// The device named in `opt`, or empty.
pub open spec fn opt_device(opt: Option<&Options>) -> Seq<char> {
    match opt {
        Some(o) => o.device@,
        None => Seq::empty(),
    }
}

/// The proxy requested in `opt`, or empty.
pub fn requested_proxy(opt: Option<&Options>) -> (r: String)
    ensures
        r@ == opt_proxy(opt),
{
    match opt {
        Some(o) => o.proxy.clone(),
        None => String::new(),
    }
}

/// The bypass list requested in `opt`, or empty.
pub fn requested_bypass(opt: Option<&Options>) -> (r: String)
    ensures
        r@ == opt_bypass(opt),
{
    match opt {
        Some(o) => o.bypass.clone(),
        None => String::new(),
    }
}

/// The PAC URL requested in `opt`, or empty.
pub fn requested_pac_url(opt: Option<&Options>) -> (r: String)
    ensures
        r@ == opt_pac_url(opt),
{
    match opt {
        Some(o) => o.pac_url.clone(),
        None => String::new(),
    }
}

/// Whether concurrent apply is on by default: on macOS, and nowhere else.
pub fn default_concurrent(platform: Platform) -> (r: bool)
    ensures
        r == (platform == Platform::MacOs),
{
    match platform {
        Platform::MacOs => true,
        _ => false,
    }
}

/// The concurrency that `opt` asks for, or the platform default.
pub open spec fn concurrency(opt: Option<&Options>, platform: Platform) -> bool {
    match opt {
        Some(o) => match o.concurrent {
            Some(c) => c,
            None => platform == Platform::MacOs,
        },
        None => platform == Platform::MacOs,
    }
}

/// Whether to apply concurrently: what `opt` asks for, else the platform default.
pub fn resolve_concurrent(opt: Option<&Options>, platform: Platform) -> (r: bool)
    ensures
        r == concurrency(opt, platform),
{
    if let Some(o) = opt {
        if let Some(c) = o.concurrent {
            return c;
        }
    }
    default_concurrent(platform)
}

/// Whether a proxy request must read the current settings: its proxy or its
/// bypass list is empty.
pub open spec fn proxy_request_wants_query(opt: Option<&Options>) -> bool {
    opt_proxy(opt).len() == 0 || opt_bypass(opt).len() == 0
}

/// The proxy and bypass list to set: those of `opt`, with an empty one taken from
/// the current settings (the HTTP server, the bypass list).
pub open spec fn effective_proxy_request(opt: Option<&Options>, current: ConfigView) -> (
    Seq<char>,
    Seq<char>,
) {
    let p = opt_proxy(opt);
    let b = opt_bypass(opt);
    (
        if p.len() == 0 {
            if current.servers.contains_key("http_server"@) {
                current.servers["http_server"@]
            } else {
                Seq::empty()
            }
        } else {
            p
        },
        if b.len() == 0 {
            current.bypass
        } else {
            b
        },
    )
}

/// Whether a proxy request must read the current settings.
pub fn proxy_request_needs_query(opt: Option<&Options>) -> (r: bool)
    ensures
        r == proxy_request_wants_query(opt),
{
    let p = requested_proxy(opt);
    let b = requested_bypass(opt);
    p.unicode_len() == 0 || b.unicode_len() == 0
}

/// The proxy and bypass list to set, with what `opt` leaves empty taken from the
/// current settings, where they were read.
pub fn resolve_proxy_request(opt: Option<&Options>, current: Option<&ProxyConfig>) -> (r: (
    String,
    String,
))
    requires
        proxy_request_wants_query(opt) ==> current is Some,
    ensures
        (r.0@, r.1@) == (if proxy_request_wants_query(opt) {
            effective_proxy_request(opt, current->0@)
        } else {
            (opt_proxy(opt), opt_bypass(opt))
        }),
        opt_bypass(opt).len() == 0 ==> r.1@ == current->0.proxy.bypass@,
        opt_bypass(opt).len() > 0 ==> r.1@ == opt_bypass(opt),
        opt_proxy(opt).len() > 0 ==> r.0@ == opt_proxy(opt),
        opt_proxy(opt).len() == 0 ==> r.0@ == (if current->0.proxy.servers@.contains_key("http_server"@) {
            current->0.proxy.servers@["http_server"@]
        } else {
            Seq::<char>::empty()
        }),
{
    let mut proxy = requested_proxy(opt);
    let mut bypass = requested_bypass(opt);
    if proxy.unicode_len() == 0 || bypass.unicode_len() == 0 {
        if let Some(c) = current {
            if proxy.unicode_len() == 0 {
                proxy = c.proxy.servers.get_or_empty("http_server");
            }
            if bypass.unicode_len() == 0 {
                bypass = c.proxy.bypass.clone();
            }
        }
    }
    (proxy, bypass)
}

/// Whether a PAC request must read the current settings: its URL is empty.
pub open spec fn pac_request_wants_query(opt: Option<&Options>) -> bool {
    opt_pac_url(opt).len() == 0
}

/// Whether a PAC request must read the current settings.
pub fn pac_request_needs_query(opt: Option<&Options>) -> (r: bool)
    ensures
        r == pac_request_wants_query(opt),
{
    requested_pac_url(opt).unicode_len() == 0
}

/// The PAC URL to set: that of `opt`, or the current one where `opt` has none.
pub fn resolve_pac_request(opt: Option<&Options>, current: Option<&ProxyConfig>) -> (r: String)
    requires
        pac_request_wants_query(opt) ==> current is Some,
    ensures
        r@ == (if pac_request_wants_query(opt) {
            current->0.pac.url@
        } else {
            opt_pac_url(opt)
        }),
{
    let url = requested_pac_url(opt);
    if url.unicode_len() == 0 {
        if let Some(c) = current {
            return c.pac.url.clone();
        }
    }
    url
}

/// A proxy request keeps what the current settings hold where it leaves a part
/// empty, and sets what it names otherwise: an empty bypass list keeps the current
/// one, an empty proxy keeps the current HTTP server.
pub proof fn law_proxy_request_keeps_current(opt: Option<&Options>, current: ConfigView)
    ensures
        opt_bypass(opt).len() == 0 ==> effective_proxy_request(opt, current).1 == current.bypass,
        opt_bypass(opt).len() > 0 ==> effective_proxy_request(opt, current).1 == opt_bypass(opt),
        opt_proxy(opt).len() > 0 ==> effective_proxy_request(opt, current).0 == opt_proxy(opt),
        opt_proxy(opt).len() == 0 && current.servers.contains_key("http_server"@)
            ==> effective_proxy_request(opt, current).0 == current.servers["http_server"@],
{
}


} // verus!
