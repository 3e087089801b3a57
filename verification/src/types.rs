//! The proxy configuration, server addresses and the text forms they take.
use vstd::prelude::*;

use crate::strmap::StrMap;
use crate::text::{chars_of, clean, str_concat, last_index, lemma_last_index, lemma_last_index_is, rfind_char, string_of_range, trim_chars, CharClass};

verus! {

/// The manual proxy part of a configuration.
pub struct ProxyInfo {
    pub enable: bool,
    pub same_for_all: bool,
    /// Servers by protocol: `http_server`, `https_server`, `socks_server`, `ftp_server`.
    pub servers: StrMap,
    /// Hosts that bypass the proxy, comma-separated.
    pub bypass: String,
}

/// The automatic (PAC) part of a configuration.
pub struct PacInfo {
    pub enable: bool,
    pub url: String,
}

/// A system proxy configuration.
pub struct ProxyConfig {
    pub proxy: ProxyInfo,
    pub pac: PacInfo,
}

/// A proxy configuration as mathematical values.
pub ghost struct ConfigView {
    pub proxy_enable: bool,
    pub same_for_all: bool,
    pub servers: Map<Seq<char>, Seq<char>>,
    pub bypass: Seq<char>,
    pub pac_enable: bool,
    pub pac_url: Seq<char>,
}

impl View for ProxyConfig {
    type V = ConfigView;

    open spec fn view(&self) -> ConfigView {
        ConfigView {
            proxy_enable: self.proxy.enable,
            same_for_all: self.proxy.same_for_all,
            servers: self.proxy.servers@,
            bypass: self.proxy.bypass@,
            pac_enable: self.pac.enable,
            pac_url: self.pac.url@,
        }
    }
}

/// The configuration with everything off and empty.
pub open spec fn empty_config() -> ConfigView {
    ConfigView {
        proxy_enable: false,
        same_for_all: false,
        servers: Map::empty(),
        bypass: Seq::empty(),
        pac_enable: false,
        pac_url: Seq::empty(),
    }
}

impl ProxyInfo {
    /// Proxy off, no servers, nothing bypassed.
    pub fn new() -> (r: ProxyInfo)
        ensures
            !r.enable,
            !r.same_for_all,
            r.servers@ == Map::<Seq<char>, Seq<char>>::empty(),
            r.bypass@ == Seq::<char>::empty(),
    {
        ProxyInfo { enable: false, same_for_all: false, servers: StrMap::new(), bypass: String::new() }
    }
}

impl PacInfo {
    /// PAC off, no URL.
    pub fn new() -> (r: PacInfo)
        ensures
            !r.enable,
            r.url@ == Seq::<char>::empty(),
    {
        PacInfo { enable: false, url: String::new() }
    }
}

impl ProxyConfig {
    /// The configuration with everything off and empty.
    pub fn new() -> (r: ProxyConfig)
        ensures
            r@ == empty_config(),
    {
        ProxyConfig { proxy: ProxyInfo::new(), pac: PacInfo::new() }
    }

    /// A copy of the configuration.
    pub fn duplicate(&self) -> (r: ProxyConfig)
        ensures
            r@ == self@,
    {
        ProxyConfig {
            proxy: ProxyInfo {
                enable: self.proxy.enable,
                same_for_all: self.proxy.same_for_all,
                servers: self.proxy.servers.duplicate(),
                bypass: self.proxy.bypass.clone(),
            },
            pac: PacInfo { enable: self.pac.enable, url: self.pac.url.clone() },
        }
    }
}

impl Default for ProxyInfo {
    fn default() -> (r: ProxyInfo)
        ensures
            !r.enable,
            !r.same_for_all,
            r.servers@ == Map::<Seq<char>, Seq<char>>::empty(),
            r.bypass@ == Seq::<char>::empty(),
    {
        ProxyInfo::new()
    }
}

impl Default for PacInfo {
    fn default() -> (r: PacInfo)
        ensures
            !r.enable,
            r.url@ == Seq::<char>::empty(),
    {
        PacInfo::new()
    }
}

impl Default for ProxyConfig {
    fn default() -> (r: ProxyConfig)
        ensures
            r@ == empty_config(),
    {
        ProxyConfig::new()
    }
}

/// A server address split into host and port.
pub struct ServerAddr {
    pub host: String,
    pub port: String,
}

impl ServerAddr {
    /// Empty host and empty port.
    pub fn new() -> (r: ServerAddr)
        ensures
            r.host@ == Seq::<char>::empty(),
            r.port@ == Seq::<char>::empty(),
    {
        ServerAddr { host: String::new(), port: String::new() }
    }
}

impl Default for ServerAddr {
    fn default() -> (r: ServerAddr)
        ensures
            r.host@ == Seq::<char>::empty(),
            r.port@ == Seq::<char>::empty(),
    {
        ServerAddr::new()
    }
}

/// The text `"0"`.
pub open spec fn zero_text() -> Seq<char> {
    seq!['0']
}

/// The `host:port` text of a server whose host and port are given as tool output,
/// or empty where either is missing or the port is `0`.
pub open spec fn server_text(host: Seq<char>, port: Seq<char>) -> Seq<char> {
    let h = clean(host);
    let p = clean(port);
    if h.len() == 0 || p.len() == 0 || p == zero_text() {
        Seq::empty()
    } else {
        h + seq![':'] + p
    }
}

/// `host:port` split at its last `:` into host and port; both empty where there
/// is no `:`.
pub open spec fn split_server(s: Seq<char>) -> (Seq<char>, Seq<char>) {
    match last_index(s, ':') {
        Some(i) => (s.take(i), s.skip(i + 1)),
        None => (Seq::empty(), Seq::empty()),
    }
}

/// Removes quotes, brackets and white space from both ends of `s`, until none is
/// left at either end.
pub fn clean_output(s: &str) -> (r: String)
    ensures
        r@ == clean(s@),
{
    trim_chars(CharClass::Decoration, s)
}

/// Formats host and port, both cleaned, as `host:port`; empty where either is
/// empty or the port is `0`.
pub fn format_server(host: &str, port: &str) -> (r: String)
    ensures
        r@ == server_text(host@, port@),
{
    let h = clean_output(host);
    let p = clean_output(port);
    let pv = chars_of(p.as_str());
    let is_zero = pv.len() == 1 && pv[0] == '0';
    assert(is_zero == (p@ == zero_text())) by {
        if pv@.len() == 1 && pv@[0] == '0' {
            assert(pv@ =~= zero_text());
        }
    }
    if h.unicode_len() == 0 || pv.len() == 0 || is_zero {
        return String::new();
    }
    let with_colon = str_concat(h.as_str(), ":");
    assert(":"@ == seq![':']) by {
        reveal_strlit(":");
    }
    str_concat(with_colon.as_str(), p.as_str())
}

/// Splits `host:port` at its last `:`.
pub fn parse_server_string(server: &str) -> (r: ServerAddr)
    ensures
        (r.host@, r.port@) == split_server(server@),
{
    let v = chars_of(server);
    if v.len() == 0 {
        return ServerAddr::new();
    }
    match rfind_char(&v, ':') {
        None => ServerAddr::new(),
        Some(idx) => {
            proof {
                lemma_last_index(v@, ':');
            }
            let host = string_of_range(&v, 0, idx);
            let port = string_of_range(&v, idx + 1, v.len());
            assert(v@.subrange(0, idx as int) =~= v@.take(idx as int));
            assert(v@.subrange(idx + 1, v@.len() as int) =~= v@.skip(idx + 1));
            ServerAddr { host, port }
        },
    }
}

/// Splitting a formatted server gives back the cleaned host and port, where the
/// port holds no `:`.
pub proof fn law_split_formatted_server(host: Seq<char>, port: Seq<char>)
    requires
        server_text(host, port).len() > 0,
        forall|k: int| 0 <= k < clean(port).len() ==> #[trigger] clean(port)[k] != ':',
    ensures
        split_server(server_text(host, port)) == (clean(host), clean(port)),
{
    let h = clean(host);
    let p = clean(port);
    let s = h + seq![':'] + p;
    assert(s == server_text(host, port));
    assert forall|k: int| h.len() < k < s.len() implies #[trigger] s[k] != ':' by {
        assert(s[k] == p[k - h.len() - 1]);
    }
    lemma_last_index_is(s, ':', h.len() as int);
    assert(s.take(h.len() as int) =~= h);
    assert(s.skip(h.len() + 1int) =~= p);
}

/// Host and port rejoined by `:` give back a server text that holds a `:`.
pub proof fn law_split_server_rejoins(s: Seq<char>)
    requires
        exists|k: int| 0 <= k < s.len() && s[k] == ':',
    ensures
        split_server(s).0 + seq![':'] + split_server(s).1 == s,
{
    lemma_last_index(s, ':');
    let k = choose|k: int| 0 <= k < s.len() && s[k] == ':';
    assert(s[k] == ':');
    let i = last_index(s, ':')->0;
    assert(s.take(i) + seq![':'] + s.skip(i + 1) =~= s);
}

/// The four server keys are told apart.
pub proof fn lemma_server_keys()
    ensures
        "http_server"@ != "https_server"@,
        "http_server"@ != "socks_server"@,
        "http_server"@ != "ftp_server"@,
        "https_server"@ != "socks_server"@,
        "https_server"@ != "ftp_server"@,
        "socks_server"@ != "ftp_server"@,
{
    reveal_strlit("http_server");
    reveal_strlit("https_server");
    reveal_strlit("socks_server");
    reveal_strlit("ftp_server");
    assert("http_server"@.len() != "https_server"@.len());
    assert("http_server"@.len() != "socks_server"@.len());
    assert("http_server"@.len() != "ftp_server"@.len());
    assert("https_server"@[0] != "socks_server"@[0]);
    assert("https_server"@.len() != "ftp_server"@.len());
    assert("socks_server"@.len() != "ftp_server"@.len());
}

} // verus!
