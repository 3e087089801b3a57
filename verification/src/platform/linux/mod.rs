//! Linux desktops: GNOME-like desktops through `gsettings`, KDE through
//! `kreadconfig` and `kwriteconfig`.
use vstd::prelude::*;

use crate::error::ProxyError;
use crate::options::{effective_proxy_request, law_proxy_request_keeps_current, opt_bypass, opt_pac_url, opt_proxy, pac_request_wants_query, proxy_request_wants_query, resolve_pac_request, resolve_proxy_request, Options};
use crate::platform::{command, command_views, CommandSpec, CommandView};
use crate::strmap::StrMap;
use crate::text::{clean, decimal, has_prefix, lemma_strip_trail_shape, strip_lead, CharClass, strip_prefix, trim, trim_ws, lemma_clean_fixed, lemma_clean_wrapped, lemma_join_front, lemma_join_split, lemma_split_last, lemma_split_append, lemma_split_nonempty, lemma_split_pieces, lemma_split_plain, lemma_decimal_digits, lemma_clean_empty_quoted, lemma_clean_line, lemma_clean_plain, lemma_clean_quoted, str_concat, contains, contains_str, join, join_strings, replace_char, replace_char_exec, split, split_char, str_eq, string_views, to_string};
use crate::types::{clean_output, format_server, law_split_formatted_server, lemma_server_keys, parse_server_string, server_text, split_server, zero_text, ConfigView, ProxyConfig};
use context::LinuxExecContext;

pub mod context;

verus! {

/// The value stored under `k`, or the empty string.
pub open spec fn setting(m: Map<Seq<char>, Seq<char>>, k: Seq<char>) -> Seq<char> {
    if m.contains_key(k) {
        m[k]
    } else {
        Seq::empty()
    }
}

// ───────────────────────────── the desktop ─────────────────────────────

/// The desktop session that the tools act on.
pub struct Environment {
    pub ctx: LinuxExecContext,
    /// `XDG_CURRENT_DESKTOP`.
    pub desktop: String,
    pub is_kde: bool,
    pub is_kde6: bool,
    pub is_gnome: bool,
}

/// Desktops that keep their proxy settings under `org.gnome.system.proxy`.
pub open spec fn is_gnome_like(desktop: Seq<char>) -> bool {
    ||| contains(desktop, "GNOME"@)
    ||| desktop == "Unity"@
    ||| desktop == "X-Cinnamon"@
    ||| desktop == "niri"@
}

/// The desktop flags that an environment with these variables gets: KDE, KDE 6,
/// GNOME-like.
pub open spec fn desktop_flags(env: Map<Seq<char>, Seq<char>>) -> (bool, bool, bool) {
    let desktop = setting(env, "XDG_CURRENT_DESKTOP"@);
    let is_kde = desktop == "KDE"@;
    (
        is_kde,
        is_kde && env.contains_key("KDE_SESSION_VERSION"@) && env["KDE_SESSION_VERSION"@] == "6"@,
        is_gnome_like(desktop),
    )
}

impl Environment {
    /// Reads the desktop from the context's environment; fails where
    /// `XDG_CURRENT_DESKTOP` is unset or empty.
    pub fn init(ctx: LinuxExecContext) -> (r: Result<Environment, ProxyError>)
        ensures
            r is Err <==> setting(ctx.env_map@, "XDG_CURRENT_DESKTOP"@).len() == 0,
            r matches Err(e) ==> e is DesktopNotSet,
            r matches Ok(e) ==> e.ctx.view_tuple() == ctx.view_tuple() && e.desktop@ == setting(
                ctx.env_map@,
                "XDG_CURRENT_DESKTOP"@,
            ) && (e.is_kde, e.is_kde6, e.is_gnome) == desktop_flags(ctx.env_map@),
    {
        let desktop = ctx.env_map.get_or_empty("XDG_CURRENT_DESKTOP");
        if desktop.unicode_len() == 0 {
            return Err(ProxyError::DesktopNotSet);
        }
        let is_kde = str_eq(desktop.as_str(), "KDE");
        let is_kde6 = is_kde && match ctx.env_map.get("KDE_SESSION_VERSION") {
            Some(v) => str_eq(v.as_str(), "6"),
            None => false,
        };
        let is_gnome = contains_str(desktop.as_str(), "GNOME") || str_eq(desktop.as_str(), "Unity")
            || str_eq(desktop.as_str(), "X-Cinnamon") || str_eq(desktop.as_str(), "niri");
        Ok(Environment { ctx, desktop, is_kde, is_kde6, is_gnome })
    }

    /// The error for a desktop that neither backend handles.
    pub fn unsupported(&self) -> (r: ProxyError)
        ensures
            r matches ProxyError::UnsupportedDesktop(d) && d@ == self.desktop@,
    {
        ProxyError::UnsupportedDesktop(self.desktop.clone())
    }
}

/// `Ok(commands)` where the desktop is KDE or GNOME-like, else the error that
/// names the desktop.
pub open spec fn dispatch_ok(
    e: &Environment,
    r: Result<Vec<CommandSpec>, ProxyError>,
    kde: Seq<CommandView>,
    gnome: Seq<CommandView>,
) -> bool {
    &&& (r is Ok <==> (e.is_kde || e.is_gnome))
    &&& r matches Ok(cmds) ==> command_views(cmds@) == (if e.is_kde { kde } else { gnome })
    &&& r matches Err(err) ==> err matches ProxyError::UnsupportedDesktop(d) && d@ == e.desktop@
}

// ───────────────────────────── GNOME ─────────────────────────────

pub open spec fn gnome_proxy_schema() -> Seq<char> {
    "org.gnome.system.proxy"@
}

/// `gsettings set <schema> <key> <value>`.
pub open spec fn gsettings_set(schema: Seq<char>, key: Seq<char>, value: Seq<char>) -> CommandView {
    ("gsettings"@, seq!["set"@, schema, key, value])
}

/// `gsettings get <schema> <key>`.
pub open spec fn gsettings_get(schema: Seq<char>, key: Seq<char>) -> CommandView {
    ("gsettings"@, seq!["get"@, schema, key])
}

fn gsettings_cmd(verb: &str, schema: &str, key: &str, value: Option<&str>) -> (r: CommandSpec)
    ensures
        r@ == match value {
            Some(v) => ("gsettings"@, seq![verb@, schema@, key@, v@]),
            None => ("gsettings"@, seq![verb@, schema@, key@]),
        },
{
    let mut args: Vec<String> = Vec::new();
    args.push(to_string(verb));
    args.push(to_string(schema));
    args.push(to_string(key));
    if let Some(v) = value {
        args.push(to_string(v));
    }
    let r = command("gsettings", args);
    assert(r@.1 =~= match value {
        Some(v) => seq![verb@, schema@, key@, v@],
        None => seq![verb@, schema@, key@],
    });
    r
}

fn exec_gsettings(schema: &str, key: &str, value: &str) -> (r: CommandSpec)
    ensures
        r@ == gsettings_set(schema@, key@, value@),
{
    gsettings_cmd("set", schema, key, Some(value))
}

/// The GNOME settings that a query reads: name, schema, key.
pub open spec fn gnome_query_table() -> Seq<(Seq<char>, Seq<char>, Seq<char>)> {
    seq![
        ("mode"@, "org.gnome.system.proxy"@, "mode"@),
        ("ignore-hosts"@, "org.gnome.system.proxy"@, "ignore-hosts"@),
        ("autoconfig-url"@, "org.gnome.system.proxy"@, "autoconfig-url"@),
        ("use-same-proxy"@, "org.gnome.system.proxy"@, "use-same-proxy"@),
        ("http_host"@, "org.gnome.system.proxy.http"@, "host"@),
        ("http_port"@, "org.gnome.system.proxy.http"@, "port"@),
        ("https_host"@, "org.gnome.system.proxy.https"@, "host"@),
        ("https_port"@, "org.gnome.system.proxy.https"@, "port"@),
        ("ftp_host"@, "org.gnome.system.proxy.ftp"@, "host"@),
        ("ftp_port"@, "org.gnome.system.proxy.ftp"@, "port"@),
        ("socks_host"@, "org.gnome.system.proxy.socks"@, "host"@),
        ("socks_port"@, "org.gnome.system.proxy.socks"@, "port"@),
    ]
}

/// A named read command: the name its output is stored under, and the command.
pub type NamedCommandView = (Seq<char>, CommandView);

/// The views of a list of named commands.
pub open spec fn named_views(v: Seq<(String, CommandSpec)>) -> Seq<NamedCommandView> {
    v.map_values(|p: (String, CommandSpec)| (p.0@, p.1@))
}

fn push_gnome_read(v: &mut Vec<(String, CommandSpec)>, name: &str, schema: &str, key: &str)
    ensures
        named_views(final(v)@) == named_views(old(v)@).push((name@, gsettings_get(schema@, key@))),
{
    let c = gsettings_cmd("get", schema, key, None);
    let ghost prev = v@;
    v.push((to_string(name), c));
    assert(named_views(v@) =~= named_views(prev).push((name@, gsettings_get(schema@, key@))));
}

/// The `gsettings get` commands of a GNOME query, each with the name that its
/// output is stored under.
pub fn query_gnome_commands() -> (r: Vec<(String, CommandSpec)>)
    ensures
        named_views(r@) == gnome_query_table().map_values(
            |t: (Seq<char>, Seq<char>, Seq<char>)| (t.0, gsettings_get(t.1, t.2)),
        ),
{
    let mut v: Vec<(String, CommandSpec)> = Vec::new();
    push_gnome_read(&mut v, "mode", "org.gnome.system.proxy", "mode");
    push_gnome_read(&mut v, "ignore-hosts", "org.gnome.system.proxy", "ignore-hosts");
    push_gnome_read(&mut v, "autoconfig-url", "org.gnome.system.proxy", "autoconfig-url");
    push_gnome_read(&mut v, "use-same-proxy", "org.gnome.system.proxy", "use-same-proxy");
    push_gnome_read(&mut v, "http_host", "org.gnome.system.proxy.http", "host");
    push_gnome_read(&mut v, "http_port", "org.gnome.system.proxy.http", "port");
    push_gnome_read(&mut v, "https_host", "org.gnome.system.proxy.https", "host");
    push_gnome_read(&mut v, "https_port", "org.gnome.system.proxy.https", "port");
    push_gnome_read(&mut v, "ftp_host", "org.gnome.system.proxy.ftp", "host");
    push_gnome_read(&mut v, "ftp_port", "org.gnome.system.proxy.ftp", "port");
    push_gnome_read(&mut v, "socks_host", "org.gnome.system.proxy.socks", "host");
    push_gnome_read(&mut v, "socks_port", "org.gnome.system.proxy.socks", "port");
    assert(named_views(v@) =~= gnome_query_table().map_values(
        |t: (Seq<char>, Seq<char>, Seq<char>)| (t.0, gsettings_get(t.1, t.2)),
    ));
    v
}

/// The cleaned pieces of a list that are not empty, in order.
pub open spec fn clean_nonempty(parts: Seq<Seq<char>>) -> Seq<Seq<char>>
    decreases parts.len(),
{
    if parts.len() == 0 {
        Seq::empty()
    } else {
        let r = clean_nonempty(parts.drop_last());
        let c = clean(parts.last());
        if c.len() > 0 {
            r.push(c)
        } else {
            r
        }
    }
}

/// The bypass list that GNOME's `ignore-hosts` gives, already cleaned: its items
/// cleaned, empty ones dropped, joined by commas.
pub open spec fn gnome_bypass(raw: Seq<char>) -> Seq<char> {
    if raw.len() == 0 {
        Seq::empty()
    } else {
        join(clean_nonempty(split(raw, ',')), ","@)
    }
}

/// The `ignore-hosts` output without the `@as` type tag that gsettings prints
/// before an empty array (`@as []`).
pub open spec fn untagged_array(raw: Seq<char>) -> Seq<char> {
    let t = trim(raw);
    if has_prefix(t, "@as"@) {
        t.skip(3)
    } else {
        raw
    }
}

/// The configuration that GNOME's settings describe, given the raw `gsettings get`
/// output stored under each name of the query.
pub open spec fn gnome_config(m: Map<Seq<char>, Seq<char>>) -> ConfigView {
    let mode = clean(setting(m, "mode"@));
    ConfigView {
        proxy_enable: mode == "manual"@,
        same_for_all: clean(setting(m, "use-same-proxy"@)) == "true"@,
        servers: map![
            "http_server"@ => server_text(setting(m, "http_host"@), setting(m, "http_port"@)),
            "https_server"@ => server_text(setting(m, "https_host"@), setting(m, "https_port"@)),
            "socks_server"@ => server_text(setting(m, "socks_host"@), setting(m, "socks_port"@)),
            "ftp_server"@ => server_text(setting(m, "ftp_host"@), setting(m, "ftp_port"@)),
        ],
        bypass: gnome_bypass(clean(untagged_array(setting(m, "ignore-hosts"@)))),
        pac_enable: mode == "auto"@,
        pac_url: clean(setting(m, "autoconfig-url"@)),
    }
}

fn gnome_bypass_exec(raw: &str) -> (r: String)
    ensures
        r@ == gnome_bypass(raw@),
{
    if raw.unicode_len() == 0 {
        return String::new();
    }
    let parts = split_char(raw, ',');
    let ghost pv = string_views(parts@);
    let mut items: Vec<String> = Vec::new();
    let mut i: usize = 0;
    assert(pv.take(0) =~= Seq::<Seq<char>>::empty());
    while i < parts.len()
        invariant
            i <= parts.len(),
            pv == string_views(parts@),
            string_views(items@) == clean_nonempty(pv.take(i as int)),
        decreases parts.len() - i,
    {
        assert(pv.take(i + 1).drop_last() =~= pv.take(i as int));
        let c = clean_output(parts[i].as_str());
        if c.unicode_len() > 0 {
            let ghost prev = items@;
            items.push(c);
            assert(string_views(items@) =~= string_views(prev).push(c@));
        }
        i = i + 1;
    }
    assert(pv.take(parts.len() as int) =~= pv);
    join_strings(&items, ",")
}

/// The configuration that GNOME's settings describe, from the raw `gsettings get`
/// output stored under each name of the query.
pub fn query_gnome_settings(settings: &StrMap) -> (r: ProxyConfig)
    ensures
        r@ == gnome_config(settings@),
{
    let mode_raw = settings.get_or_empty("mode");
    let mode = clean_output(mode_raw.as_str());
    let same = clean_output(settings.get_or_empty("use-same-proxy").as_str());
    let mut servers = StrMap::new();
    servers.insert(
        to_string("http_server"),
        format_server(settings.get_or_empty("http_host").as_str(), settings.get_or_empty("http_port").as_str()),
    );
    servers.insert(
        to_string("https_server"),
        format_server(settings.get_or_empty("https_host").as_str(), settings.get_or_empty("https_port").as_str()),
    );
    servers.insert(
        to_string("socks_server"),
        format_server(settings.get_or_empty("socks_host").as_str(), settings.get_or_empty("socks_port").as_str()),
    );
    servers.insert(
        to_string("ftp_server"),
        format_server(settings.get_or_empty("ftp_host").as_str(), settings.get_or_empty("ftp_port").as_str()),
    );
    let ignore = settings.get_or_empty("ignore-hosts");
    let ignore_trimmed = trim_ws(ignore.as_str());
    let untagged = match strip_prefix(ignore_trimmed.as_str(), "@as") {
        Some(rest) => {
            proof {
                reveal_strlit("@as");
            }
            rest
        },
        None => ignore,
    };
    let bypass_raw = clean_output(untagged.as_str());
    let bypass = gnome_bypass_exec(bypass_raw.as_str());
    let url = clean_output(settings.get_or_empty("autoconfig-url").as_str());
    let r = ProxyConfig {
        proxy: crate::types::ProxyInfo {
            enable: str_eq(mode.as_str(), "manual"),
            same_for_all: str_eq(same.as_str(), "true"),
            servers,
            bypass,
        },
        pac: crate::types::PacInfo { enable: str_eq(mode.as_str(), "auto"), url },
    };
    assert(r@.servers =~= gnome_config(settings@).servers);
    r
}

/// The commands for one kind of server: host and port, where the server names a host.
pub open spec fn gnome_server_commands(
    servers: Map<Seq<char>, Seq<char>>,
    proxy_type: Seq<char>,
    key: Seq<char>,
) -> Seq<CommandView> {
    let server = setting(servers, key);
    let addr = split_server(server);
    let schema = "org.gnome.system.proxy."@ + proxy_type;
    if server.len() == 0 || addr.0.len() == 0 {
        Seq::empty()
    } else {
        seq![gsettings_set(schema, "host"@, addr.0), gsettings_set(schema, "port"@, addr.1)]
    }
}

/// The `ignore-hosts` value for a comma-separated bypass list: `['a','b']`.
pub open spec fn gnome_ignore_hosts(bypass: Seq<char>) -> Seq<char> {
    "['"@ + join(split(bypass, ','), "','"@) + "']"@
}

pub open spec fn bool_text(b: bool) -> Seq<char> {
    if b {
        "true"@
    } else {
        "false"@
    }
}

/// The commands that set GNOME's manual proxy to `c`.
pub open spec fn gnome_proxy_commands(c: ConfigView) -> Seq<CommandView> {
    seq![gsettings_set(gnome_proxy_schema(), "mode"@, "manual"@)] + gnome_server_commands(
        c.servers,
        "http"@,
        "http_server"@,
    ) + gnome_server_commands(c.servers, "https"@, "https_server"@) + gnome_server_commands(
        c.servers,
        "ftp"@,
        "ftp_server"@,
    ) + gnome_server_commands(c.servers, "socks"@, "socks_server"@) + (if c.bypass.len() > 0 {
        seq![gsettings_set(gnome_proxy_schema(), "ignore-hosts"@, gnome_ignore_hosts(c.bypass))]
    } else {
        Seq::empty()
    }) + seq![gsettings_set(gnome_proxy_schema(), "use-same-proxy"@, bool_text(c.same_for_all))]
}

fn push_command(v: &mut Vec<CommandSpec>, c: CommandSpec)
    ensures
        command_views(final(v)@) == command_views(old(v)@).push(c@),
{
    let ghost prev = v@;
    let ghost cv = c@;
    v.push(c);
    assert(command_views(v@) =~= command_views(prev).push(cv));
}

fn push_gnome_server(v: &mut Vec<CommandSpec>, servers: &StrMap, proxy_type: &str, key: &str)
    ensures
        command_views(final(v)@) == command_views(old(v)@) + gnome_server_commands(
            servers@,
            proxy_type@,
            key@,
        ),
{
    let server = servers.get_or_empty(key);
    if server.unicode_len() == 0 {
        assert(command_views(v@) =~= command_views(v@) + Seq::<CommandView>::empty());
        return;
    }
    let addr = parse_server_string(server.as_str());
    if addr.host.unicode_len() == 0 {
        assert(command_views(v@) =~= command_views(v@) + Seq::<CommandView>::empty());
        return;
    }
    let ghost start = command_views(v@);
    let schema = str_concat("org.gnome.system.proxy.", proxy_type);
    push_command(v, exec_gsettings(schema.as_str(), "host", addr.host.as_str()));
    push_command(v, exec_gsettings(schema.as_str(), "port", addr.port.as_str()));
    assert(command_views(v@) =~= start + gnome_server_commands(servers@, proxy_type@, key@));
}

/// The commands that set GNOME's manual proxy to `config`.
pub fn set_gnome_proxy(config: &ProxyConfig) -> (r: Vec<CommandSpec>)
    ensures
        command_views(r@) == gnome_proxy_commands(config@),
{
    let mut v: Vec<CommandSpec> = Vec::new();
    push_command(&mut v, exec_gsettings("org.gnome.system.proxy", "mode", "manual"));
    let ghost a = command_views(v@);
    push_gnome_server(&mut v, &config.proxy.servers, "http", "http_server");
    push_gnome_server(&mut v, &config.proxy.servers, "https", "https_server");
    push_gnome_server(&mut v, &config.proxy.servers, "ftp", "ftp_server");
    push_gnome_server(&mut v, &config.proxy.servers, "socks", "socks_server");
    let ghost b = command_views(v@);
    if config.proxy.bypass.unicode_len() > 0 {
        let parts = split_char(config.proxy.bypass.as_str(), ',');
        let joined = join_strings(&parts, "','");
        let open = str_concat("['", joined.as_str());
        let list = str_concat(open.as_str(), "']");
        push_command(&mut v, exec_gsettings("org.gnome.system.proxy", "ignore-hosts", list.as_str()));
    }
    let ghost c = command_views(v@);
    let same = if config.proxy.same_for_all {
        "true"
    } else {
        "false"
    };
    push_command(&mut v, exec_gsettings("org.gnome.system.proxy", "use-same-proxy", same));
    assert(command_views(v@) =~= gnome_proxy_commands(config@));
    v
}

/// The commands that turn GNOME's automatic proxy on with `url`.
pub open spec fn gnome_pac_commands(url: Seq<char>) -> Seq<CommandView> {
    seq![
        gsettings_set(gnome_proxy_schema(), "mode"@, "auto"@),
        gsettings_set(gnome_proxy_schema(), "autoconfig-url"@, url),
    ]
}

/// The commands that turn GNOME's automatic proxy on with the configuration's URL.
pub fn set_gnome_pac(config: &ProxyConfig) -> (r: Vec<CommandSpec>)
    ensures
        command_views(r@) == gnome_pac_commands(config.pac.url@),
{
    let mut v: Vec<CommandSpec> = Vec::new();
    push_command(&mut v, exec_gsettings("org.gnome.system.proxy", "mode", "auto"));
    push_command(&mut v, exec_gsettings("org.gnome.system.proxy", "autoconfig-url", config.pac.url.as_str()));
    assert(command_views(v@) =~= gnome_pac_commands(config.pac.url@));
    v
}

/// The command that turns GNOME's proxy off.
pub open spec fn gnome_clear_commands() -> Seq<CommandView> {
    seq![gsettings_set(gnome_proxy_schema(), "mode"@, "none"@)]
}

/// The command that turns GNOME's proxy off.
pub fn clear_gnome_proxy() -> (r: Vec<CommandSpec>)
    ensures
        command_views(r@) == gnome_clear_commands(),
{
    let mut v: Vec<CommandSpec> = Vec::new();
    push_command(&mut v, exec_gsettings("org.gnome.system.proxy", "mode", "none"));
    assert(command_views(v@) =~= gnome_clear_commands());
    v
}

// ───────────────────────────── KDE ─────────────────────────────

/// The read tool, the write tool and the settings group of a KDE version.
pub open spec fn kde_names(kde6: bool) -> (Seq<char>, Seq<char>, Seq<char>) {
    if kde6 {
        ("kreadconfig6"@, "kwriteconfig6"@, "Proxy Settings"@)
    } else {
        ("kreadconfig5"@, "kwriteconfig5"@, "Proxy"@)
    }
}

/// The read tool, the write tool and the settings group for the desktop.
pub fn kde_cmd_names(e: &Environment) -> (r: (&'static str, &'static str, &'static str))
    ensures
        (r.0@, r.1@, r.2@) == kde_names(e.is_kde6),
{
    if e.is_kde6 {
        ("kreadconfig6", "kwriteconfig6", "Proxy Settings")
    } else {
        ("kreadconfig5", "kwriteconfig5", "Proxy")
    }
}

/// The KDE keys that a query reads.
pub open spec fn kde_query_keys() -> Seq<Seq<char>> {
    seq![
        "ProxyType"@,
        "httpProxy"@,
        "httpsProxy"@,
        "socksProxy"@,
        "ftpProxy"@,
        "NoProxyFor"@,
        "Proxy Config Script"@,
        "UseSameProxy"@,
    ]
}

/// `<read tool> --file kioslaverc --group <group> --key <key>`.
pub open spec fn kde_read(tool: Seq<char>, group: Seq<char>, key: Seq<char>) -> CommandView {
    (tool, seq!["--file"@, "kioslaverc"@, "--group"@, group, "--key"@, key])
}

/// `<write tool> --file kioslaverc --group <group> --key <key> <value>`.
pub open spec fn kde_write(tool: Seq<char>, group: Seq<char>, key: Seq<char>, value: Seq<char>) -> CommandView {
    (tool, seq!["--file"@, "kioslaverc"@, "--group"@, group, "--key"@, key, value])
}

fn kde_cmd(tool: &str, group: &str, key: &str, value: Option<&str>) -> (r: CommandSpec)
    ensures
        r@ == match value {
            Some(v) => kde_write(tool@, group@, key@, v@),
            None => kde_read(tool@, group@, key@),
        },
{
    let mut args: Vec<String> = Vec::new();
    args.push(to_string("--file"));
    args.push(to_string("kioslaverc"));
    args.push(to_string("--group"));
    args.push(to_string(group));
    args.push(to_string("--key"));
    args.push(to_string(key));
    if let Some(v) = value {
        args.push(to_string(v));
    }
    let r = command(tool, args);
    assert(r@.1 =~= match value {
        Some(v) => kde_write(tool@, group@, key@, v@).1,
        None => kde_read(tool@, group@, key@).1,
    });
    r
}

fn push_kde_read(v: &mut Vec<(String, CommandSpec)>, tool: &str, group: &str, key: &str)
    ensures
        named_views(final(v)@) == named_views(old(v)@).push((key@, kde_read(tool@, group@, key@))),
{
    let c = kde_cmd(tool, group, key, None);
    let ghost prev = v@;
    v.push((to_string(key), c));
    assert(named_views(v@) =~= named_views(prev).push((key@, kde_read(tool@, group@, key@))));
}

/// The read commands of a KDE query, each with the key that its output is stored under.
pub fn query_kde_commands(e: &Environment) -> (r: Vec<(String, CommandSpec)>)
    ensures
        named_views(r@) == kde_query_keys().map_values(
            |k: Seq<char>| (k, kde_read(kde_names(e.is_kde6).0, kde_names(e.is_kde6).2, k)),
        ),
{
    let (read, _w, group) = kde_cmd_names(e);
    let mut v: Vec<(String, CommandSpec)> = Vec::new();
    push_kde_read(&mut v, read, group, "ProxyType");
    push_kde_read(&mut v, read, group, "httpProxy");
    push_kde_read(&mut v, read, group, "httpsProxy");
    push_kde_read(&mut v, read, group, "socksProxy");
    push_kde_read(&mut v, read, group, "ftpProxy");
    push_kde_read(&mut v, read, group, "NoProxyFor");
    push_kde_read(&mut v, read, group, "Proxy Config Script");
    push_kde_read(&mut v, read, group, "UseSameProxy");
    assert(named_views(v@) =~= kde_query_keys().map_values(
        |k: Seq<char>| (k, kde_read(kde_names(e.is_kde6).0, kde_names(e.is_kde6).2, k)),
    ));
    v
}

/// A KDE proxy entry as a server: spaces become `:`, and empty or `0` means none.
pub open spec fn kde_server(v: Seq<char>) -> Seq<char> {
    let s = replace_char(v, ' ', ':');
    if s.len() == 0 || s == zero_text() {
        Seq::empty()
    } else {
        s
    }
}

/// The configuration that KDE's settings describe, given the raw output of the read
/// tool stored under each key.
pub open spec fn kde_config(m: Map<Seq<char>, Seq<char>>) -> ConfigView {
    let ty = clean(setting(m, "ProxyType"@));
    ConfigView {
        proxy_enable: ty == "1"@,
        same_for_all: clean(setting(m, "UseSameProxy"@)) == "true"@,
        servers: map![
            "http_server"@ => kde_server(clean(setting(m, "httpProxy"@))),
            "https_server"@ => kde_server(clean(setting(m, "httpsProxy"@))),
            "socks_server"@ => kde_server(clean(setting(m, "socksProxy"@))),
            "ftp_server"@ => kde_server(clean(setting(m, "ftpProxy"@))),
        ],
        bypass: clean(setting(m, "NoProxyFor"@)),
        pac_enable: ty == "2"@,
        pac_url: clean(setting(m, "Proxy Config Script"@)),
    }
}

fn kde_server_exec(raw: &str) -> (r: String)
    ensures
        r@ == kde_server(clean(raw@)),
{
    let c = clean_output(raw);
    let s = replace_char_exec(c.as_str(), ' ', ':');
    if s.unicode_len() == 0 || str_eq(s.as_str(), "0") {
        assert("0"@ == zero_text()) by {
            reveal_strlit("0");
        }
        String::new()
    } else {
        assert("0"@ == zero_text()) by {
            reveal_strlit("0");
        }
        s
    }
}

/// The configuration that KDE's settings describe, from the raw output of the read
/// tool stored under each key.
pub fn query_kde_settings(values: &StrMap) -> (r: ProxyConfig)
    ensures
        r@ == kde_config(values@),
{
    let ty = clean_output(values.get_or_empty("ProxyType").as_str());
    let same = clean_output(values.get_or_empty("UseSameProxy").as_str());
    let mut servers = StrMap::new();
    servers.insert(to_string("http_server"), kde_server_exec(values.get_or_empty("httpProxy").as_str()));
    servers.insert(to_string("https_server"), kde_server_exec(values.get_or_empty("httpsProxy").as_str()));
    servers.insert(to_string("socks_server"), kde_server_exec(values.get_or_empty("socksProxy").as_str()));
    servers.insert(to_string("ftp_server"), kde_server_exec(values.get_or_empty("ftpProxy").as_str()));
    let bypass = clean_output(values.get_or_empty("NoProxyFor").as_str());
    let url = clean_output(values.get_or_empty("Proxy Config Script").as_str());
    let r = ProxyConfig {
        proxy: crate::types::ProxyInfo {
            enable: str_eq(ty.as_str(), "1"),
            same_for_all: str_eq(same.as_str(), "true"),
            servers,
            bypass,
        },
        pac: crate::types::PacInfo { enable: str_eq(ty.as_str(), "2"), url },
    };
    assert(r@.servers =~= kde_config(values@).servers);
    r
}

/// The commands that set KDE's manual proxy to `c`.
pub open spec fn kde_proxy_commands(kde6: bool, c: ConfigView) -> Seq<CommandView> {
    let (_r, w, g) = kde_names(kde6);
    seq![
        kde_write(w, g, "ProxyType"@, "1"@),
        kde_write(w, g, "httpProxy"@, setting(c.servers, "http_server"@)),
        kde_write(w, g, "httpsProxy"@, setting(c.servers, "https_server"@)),
        kde_write(w, g, "socksProxy"@, setting(c.servers, "socks_server"@)),
        kde_write(w, g, "ftpProxy"@, setting(c.servers, "ftp_server"@)),
        kde_write(w, g, "NoProxyFor"@, c.bypass),
        kde_write(w, g, "UseSameProxy"@, bool_text(c.same_for_all)),
    ]
}

fn exec_kde_config(cmd: &str, key: &str, value: &str, group: &str) -> (r: CommandSpec)
    ensures
        r@ == kde_write(cmd@, group@, key@, value@),
{
    kde_cmd(cmd, group, key, Some(value))
}

/// The commands that set KDE's manual proxy to `config`.
pub fn set_kde_proxy(e: &Environment, config: &ProxyConfig) -> (r: Vec<CommandSpec>)
    ensures
        command_views(r@) == kde_proxy_commands(e.is_kde6, config@),
{
    let (_r, w, g) = kde_cmd_names(e);
    let mut v: Vec<CommandSpec> = Vec::new();
    push_command(&mut v, exec_kde_config(w, "ProxyType", "1", g));
    let http = config.proxy.servers.get_or_empty("http_server");
    push_command(&mut v, exec_kde_config(w, "httpProxy", http.as_str(), g));
    let https = config.proxy.servers.get_or_empty("https_server");
    push_command(&mut v, exec_kde_config(w, "httpsProxy", https.as_str(), g));
    let socks = config.proxy.servers.get_or_empty("socks_server");
    push_command(&mut v, exec_kde_config(w, "socksProxy", socks.as_str(), g));
    let ftp = config.proxy.servers.get_or_empty("ftp_server");
    push_command(&mut v, exec_kde_config(w, "ftpProxy", ftp.as_str(), g));
    push_command(&mut v, exec_kde_config(w, "NoProxyFor", config.proxy.bypass.as_str(), g));
    let same = if config.proxy.same_for_all {
        "true"
    } else {
        "false"
    };
    push_command(&mut v, exec_kde_config(w, "UseSameProxy", same, g));
    assert(command_views(v@) =~= kde_proxy_commands(e.is_kde6, config@));
    v
}

/// The commands that turn KDE's automatic proxy on with `url`.
pub open spec fn kde_pac_commands(kde6: bool, url: Seq<char>) -> Seq<CommandView> {
    let (_r, w, g) = kde_names(kde6);
    seq![kde_write(w, g, "ProxyType"@, "2"@), kde_write(w, g, "Proxy Config Script"@, url)]
}

/// The commands that turn KDE's automatic proxy on with the configuration's URL.
pub fn set_kde_pac(e: &Environment, config: &ProxyConfig) -> (r: Vec<CommandSpec>)
    ensures
        command_views(r@) == kde_pac_commands(e.is_kde6, config.pac.url@),
{
    let (_r, w, g) = kde_cmd_names(e);
    let mut v: Vec<CommandSpec> = Vec::new();
    push_command(&mut v, exec_kde_config(w, "ProxyType", "2", g));
    push_command(&mut v, exec_kde_config(w, "Proxy Config Script", config.pac.url.as_str(), g));
    assert(command_views(v@) =~= kde_pac_commands(e.is_kde6, config.pac.url@));
    v
}

/// The command that turns KDE's proxy off.
pub open spec fn kde_clear_commands(kde6: bool) -> Seq<CommandView> {
    let (_r, w, g) = kde_names(kde6);
    seq![kde_write(w, g, "ProxyType"@, "0"@)]
}

/// The command that turns KDE's proxy off.
pub fn clear_kde_proxy(e: &Environment) -> (r: Vec<CommandSpec>)
    ensures
        command_views(r@) == kde_clear_commands(e.is_kde6),
{
    let (_r, w, g) = kde_cmd_names(e);
    let mut v: Vec<CommandSpec> = Vec::new();
    push_command(&mut v, exec_kde_config(w, "ProxyType", "0", g));
    assert(command_views(v@) =~= kde_clear_commands(e.is_kde6));
    v
}

// ───────────────────────────── reading back what was written ─────────────────────────────

/// The `kioslaverc` entries after the write commands `cmds`, in order: a write
/// (`… --key <key> <value>`) stores its value under its key.
pub open spec fn kde_store_after(store: Map<Seq<char>, Seq<char>>, cmds: Seq<CommandView>) -> Map<Seq<char>, Seq<char>>
    decreases cmds.len(),
{
    if cmds.len() == 0 {
        store
    } else {
        let s = kde_store_after(store, cmds.drop_last());
        let a = cmds.last().1;
        if a.len() == 7 {
            s.insert(a[5], a[6])
        } else {
            s
        }
    }
}

proof fn lemma_kde_keys_distinct()
    ensures
        "ProxyType"@ != "httpProxy"@,
        "ProxyType"@ != "httpsProxy"@,
        "ProxyType"@ != "socksProxy"@,
        "ProxyType"@ != "ftpProxy"@,
        "ProxyType"@ != "NoProxyFor"@,
        "ProxyType"@ != "UseSameProxy"@,
        "ProxyType"@ != "Proxy Config Script"@,
        "httpProxy"@ != "httpsProxy"@,
        "httpProxy"@ != "socksProxy"@,
        "httpProxy"@ != "ftpProxy"@,
        "httpProxy"@ != "NoProxyFor"@,
        "httpProxy"@ != "UseSameProxy"@,
        "httpsProxy"@ != "socksProxy"@,
        "httpsProxy"@ != "ftpProxy"@,
        "httpsProxy"@ != "NoProxyFor"@,
        "httpsProxy"@ != "UseSameProxy"@,
        "socksProxy"@ != "ftpProxy"@,
        "socksProxy"@ != "NoProxyFor"@,
        "socksProxy"@ != "UseSameProxy"@,
        "ftpProxy"@ != "NoProxyFor"@,
        "ftpProxy"@ != "UseSameProxy"@,
        "NoProxyFor"@ != "UseSameProxy"@,
{
    reveal_strlit("ProxyType");
    reveal_strlit("httpProxy");
    reveal_strlit("httpsProxy");
    reveal_strlit("socksProxy");
    reveal_strlit("ftpProxy");
    reveal_strlit("NoProxyFor");
    reveal_strlit("UseSameProxy");
    reveal_strlit("Proxy Config Script");
    assert("ProxyType"@[0] != "httpProxy"@[0]);
    assert("ProxyType"@[0] != "httpsProxy"@[0]);
    assert("ProxyType"@[0] != "socksProxy"@[0]);
    assert("ProxyType"@[0] != "ftpProxy"@[0]);
    assert("ProxyType"@[0] != "NoProxyFor"@[0]);
    assert("ProxyType"@[0] != "UseSameProxy"@[0]);
    assert("ProxyType"@.len() != "Proxy Config Script"@.len());
    assert("httpProxy"@[4] != "httpsProxy"@[4]);
    assert("httpProxy"@[0] != "socksProxy"@[0]);
    assert("httpProxy"@[0] != "ftpProxy"@[0]);
    assert("httpProxy"@[0] != "NoProxyFor"@[0]);
    assert("httpProxy"@[0] != "UseSameProxy"@[0]);
    assert("httpsProxy"@[0] != "socksProxy"@[0]);
    assert("httpsProxy"@[0] != "ftpProxy"@[0]);
    assert("httpsProxy"@[0] != "NoProxyFor"@[0]);
    assert("httpsProxy"@[0] != "UseSameProxy"@[0]);
    assert("socksProxy"@[0] != "ftpProxy"@[0]);
    assert("socksProxy"@[0] != "NoProxyFor"@[0]);
    assert("socksProxy"@[0] != "UseSameProxy"@[0]);
    assert("ftpProxy"@[0] != "NoProxyFor"@[0]);
    assert("ftpProxy"@[0] != "UseSameProxy"@[0]);
    assert("NoProxyFor"@[0] != "UseSameProxy"@[0]);
}

proof fn lemma_clean_plain_words()
    ensures
        clean("0"@) == "0"@,
        clean("1"@) == "1"@,
        clean("2"@) == "2"@,
        clean("true"@) == "true"@,
        "1"@ != "2"@,
        "0"@ != "1"@,
        "0"@ != "2"@,
        "true"@ != "false"@,
{
    reveal_strlit("0");
    reveal_strlit("1");
    reveal_strlit("2");
    reveal_strlit("true");
    reveal_strlit("false");
    assert(clean("0"@) == "0"@);
    assert(clean("1"@) == "1"@);
    assert(clean("2"@) == "2"@);
    assert(clean("true"@) == "true"@);
    assert("1"@[0] != "2"@[0]);
    assert("0"@[0] != "1"@[0]);
    assert("0"@[0] != "2"@[0]);
    assert("true"@.len() != "false"@.len());
}

/// After the writes of setting a proxy on KDE, a KDE query reads back the proxy on,
/// the same server for HTTP, HTTPS and SOCKS, and the automatic proxy off; for a
/// server that is plain text already (no surrounding quotes, brackets or space, no
/// space inside) other than `0`.
pub proof fn law_kde_reads_back_proxy(store: Map<Seq<char>, Seq<char>>, kde6: bool, proxy: Seq<char>, bypass: Seq<char>)
    requires
        clean(proxy) == proxy,
        forall|k: int| 0 <= k < proxy.len() ==> #[trigger] proxy[k] != ' ',
        proxy != zero_text(),
    ensures
        ({
            let c = kde_config(kde_store_after(store, kde_proxy_commands(kde6, requested_proxy_config(proxy, bypass))));
            &&& c.proxy_enable
            &&& c.same_for_all
            &&& c.servers["http_server"@] == proxy
            &&& c.servers["https_server"@] == proxy
            &&& c.servers["socks_server"@] == proxy
            &&& !c.pac_enable
        }),
{
    lemma_kde_proxy_store(store, kde6, proxy, bypass);
    lemma_server_keys();
    assert(replace_char(proxy, ' ', ':') =~= proxy);
    assert(kde_server(proxy) == proxy);
}

/// After the writes of setting a proxy on KDE, a KDE query reads back the bypass list,
/// for a list that is plain text already.
pub proof fn law_kde_reads_back_bypass(store: Map<Seq<char>, Seq<char>>, kde6: bool, proxy: Seq<char>, bypass: Seq<char>)
    requires
        clean(bypass) == bypass,
    ensures
        kde_config(kde_store_after(store, kde_proxy_commands(kde6, requested_proxy_config(proxy, bypass)))).bypass == bypass,
{
    lemma_kde_proxy_store(store, kde6, proxy, bypass);
}

/// The `kioslaverc` entries after the writes of setting a proxy configuration.
#[verifier::spinoff_prover]
proof fn lemma_kde_config_store(store: Map<Seq<char>, Seq<char>>, kde6: bool, c: ConfigView) -> (st: Map<
    Seq<char>,
    Seq<char>,
>)
    ensures
        st == kde_store_after(store, kde_proxy_commands(kde6, c)),
        setting(st, "ProxyType"@) == "1"@,
        setting(st, "httpProxy"@) == setting(c.servers, "http_server"@),
        setting(st, "httpsProxy"@) == setting(c.servers, "https_server"@),
        setting(st, "socksProxy"@) == setting(c.servers, "socks_server"@),
        setting(st, "ftpProxy"@) == setting(c.servers, "ftp_server"@),
        setting(st, "NoProxyFor"@) == c.bypass,
        setting(st, "UseSameProxy"@) == bool_text(c.same_for_all),
        clean("1"@) == "1"@,
        clean("true"@) == "true"@,
        "1"@ != "2"@,
{
    lemma_kde_keys_distinct();
    lemma_clean_plain_words();
    let cmds = kde_proxy_commands(kde6, c);
    reveal_with_fuel(kde_store_after, 8);
    assert(cmds.drop_last() =~= cmds.take(6));
    assert(cmds.take(6).drop_last() =~= cmds.take(5));
    assert(cmds.take(5).drop_last() =~= cmds.take(4));
    assert(cmds.take(4).drop_last() =~= cmds.take(3));
    assert(cmds.take(3).drop_last() =~= cmds.take(2));
    assert(cmds.take(2).drop_last() =~= cmds.take(1));
    assert(cmds.take(1).drop_last() =~= Seq::<CommandView>::empty());
    kde_store_after(store, cmds)
}

/// The `kioslaverc` entries after the writes of setting a proxy.
proof fn lemma_kde_proxy_store(store: Map<Seq<char>, Seq<char>>, kde6: bool, proxy: Seq<char>, bypass: Seq<char>) -> (st: Map<
    Seq<char>,
    Seq<char>,
>)
    ensures
        st == kde_store_after(store, kde_proxy_commands(kde6, requested_proxy_config(proxy, bypass))),
        setting(st, "ProxyType"@) == "1"@,
        setting(st, "httpProxy"@) == proxy,
        setting(st, "httpsProxy"@) == proxy,
        setting(st, "socksProxy"@) == proxy,
        setting(st, "NoProxyFor"@) == bypass,
        setting(st, "UseSameProxy"@) == "true"@,
        clean("1"@) == "1"@,
        clean("true"@) == "true"@,
        "1"@ != "2"@,
{
    let cfg = requested_proxy_config(proxy, bypass);
    assert(setting(cfg.servers, "http_server"@) == proxy);
    assert(setting(cfg.servers, "https_server"@) == proxy);
    assert(setting(cfg.servers, "socks_server"@) == proxy);
    lemma_kde_config_store(store, kde6, cfg)
}

/// A server text that KDE stores and reads back unchanged: already clean, without
/// spaces (which KDE's reader turns into `:`), and not `0`.
pub open spec fn kde_plain_server(v: Seq<char>) -> bool {
    &&& clean(v) == v
    &&& forall|k: int| 0 <= k < v.len() ==> #[trigger] v[k] != ' '
    &&& v != zero_text()
}

proof fn lemma_kde_server_plain(v: Seq<char>)
    requires
        kde_plain_server(v),
    ensures
        kde_server(clean(v)) == v,
{
    assert(replace_char(v, ' ', ':') =~= v);
}

/// After the writes of setting a proxy configuration on KDE, a KDE query reads back
/// each protocol's server from that protocol's own key: the HTTP, HTTPS, SOCKS and
/// FTP servers that were written, each where it was written; for servers that KDE
/// stores unchanged.
pub proof fn law_kde_reads_back_servers(store: Map<Seq<char>, Seq<char>>, kde6: bool, c: ConfigView)
    requires
        kde_plain_server(setting(c.servers, "http_server"@)),
        kde_plain_server(setting(c.servers, "https_server"@)),
        kde_plain_server(setting(c.servers, "socks_server"@)),
        kde_plain_server(setting(c.servers, "ftp_server"@)),
    ensures
        ({
            let r = kde_config(kde_store_after(store, kde_proxy_commands(kde6, c)));
            &&& r.proxy_enable
            &&& r.servers["http_server"@] == setting(c.servers, "http_server"@)
            &&& r.servers["https_server"@] == setting(c.servers, "https_server"@)
            &&& r.servers["socks_server"@] == setting(c.servers, "socks_server"@)
            &&& r.servers["ftp_server"@] == setting(c.servers, "ftp_server"@)
            &&& r.bypass == clean(c.bypass)
            &&& r.same_for_all == c.same_for_all
        }),
{
    lemma_kde_config_store(store, kde6, c);
    lemma_server_keys();
    lemma_kde_server_plain(setting(c.servers, "http_server"@));
    lemma_kde_server_plain(setting(c.servers, "https_server"@));
    lemma_kde_server_plain(setting(c.servers, "socks_server"@));
    lemma_kde_server_plain(setting(c.servers, "ftp_server"@));
    reveal_strlit("true");
    reveal_strlit("false");
    assert("true"@.len() != "false"@.len());
    lemma_clean_plain("false"@);
}

/// After the writes of turning the automatic proxy on on KDE, a KDE query reads back
/// the automatic proxy on with the URL and the manual proxy off, for a URL that is
/// plain text already.
pub proof fn law_kde_reads_back_pac(store: Map<Seq<char>, Seq<char>>, kde6: bool, url: Seq<char>)
    requires
        clean(url) == url,
    ensures
        kde_config(kde_store_after(store, kde_pac_commands(kde6, url))).pac_enable,
        kde_config(kde_store_after(store, kde_pac_commands(kde6, url))).pac_url == url,
        !kde_config(kde_store_after(store, kde_pac_commands(kde6, url))).proxy_enable,
{
    lemma_kde_keys_distinct();
    lemma_clean_plain_words();
    let cmds = kde_pac_commands(kde6, url);
    reveal_with_fuel(kde_store_after, 3);
    assert(cmds.drop_last() =~= cmds.take(1));
    assert(cmds.take(1).drop_last() =~= Seq::<CommandView>::empty());
    let st = kde_store_after(store, cmds);
    assert(setting(st, "ProxyType"@) == "2"@);
    assert(setting(st, "Proxy Config Script"@) == url);
}

/// After the write of turning the proxy off on KDE, a KDE query reads back both the
/// manual and the automatic proxy off.
pub proof fn law_kde_reads_back_disabled(store: Map<Seq<char>, Seq<char>>, kde6: bool)
    ensures
        !kde_config(kde_store_after(store, kde_clear_commands(kde6))).proxy_enable,
        !kde_config(kde_store_after(store, kde_clear_commands(kde6))).pac_enable,
{
    lemma_clean_plain_words();
    let cmds = kde_clear_commands(kde6);
    reveal_with_fuel(kde_store_after, 2);
    assert(cmds.drop_last() =~= Seq::<CommandView>::empty());
    let st = kde_store_after(store, cmds);
    assert(setting(st, "ProxyType"@) == "0"@);
}

/// GSettings' store of the proxy settings, keyed by schema and key, after the write
/// commands `cmds`, in order: a write (`gsettings set <schema> <key> <value>`) stores
/// its value under its schema and key.
pub open spec fn gnome_store_after(
    store: Map<(Seq<char>, Seq<char>), Seq<char>>,
    cmds: Seq<CommandView>,
) -> Map<(Seq<char>, Seq<char>), Seq<char>>
    decreases cmds.len(),
{
    if cmds.len() == 0 {
        store
    } else {
        let s = gnome_store_after(store, cmds.drop_last());
        let a = cmds.last().1;
        if a.len() == 4 {
            s.insert((a[1], a[2]), a[3])
        } else {
            s
        }
    }
}

/// A string array as gsettings prints it, from the text it was written as without
/// spaces, where its items hold no comma: a space after each comma.
pub open spec fn spaced_commas(s: Seq<char>) -> Seq<char>
    decreases s.len(),
{
    if s.len() == 0 {
        Seq::empty()
    } else {
        spaced_commas(s.drop_last()) + (if s.last() == ',' {
            seq![',', ' ']
        } else {
            seq![s.last()]
        })
    }
}

/// What `gsettings get <schema> <key>` prints of the store: a port number or the
/// `use-same-proxy` flag as it is, the `ignore-hosts` array with a space after each
/// comma, any other value as a string in single quotes; then a newline. A key that
/// is not set prints nothing.
pub open spec fn gsettings_printed(
    store: Map<(Seq<char>, Seq<char>), Seq<char>>,
    schema: Seq<char>,
    key: Seq<char>,
) -> Seq<char> {
    if !store.contains_key((schema, key)) {
        Seq::empty()
    } else if key == "port"@ || key == "use-same-proxy"@ {
        store[(schema, key)] + seq!['\n']
    } else if key == "ignore-hosts"@ {
        spaced_commas(store[(schema, key)]) + seq!['\n']
    } else {
        seq!['\''] + store[(schema, key)] + seq!['\'', '\n']
    }
}

/// The outputs `m` of a GNOME query are what `gsettings get` prints of `store`, for
/// every setting of the query.
pub open spec fn gnome_outputs_read(m: Map<Seq<char>, Seq<char>>, store: Map<(Seq<char>, Seq<char>), Seq<char>>) -> bool {
    forall|i: int|
        0 <= i < gnome_query_table().len() ==> {
            let t = #[trigger] gnome_query_table()[i];
            m.contains_key(t.0) && m[t.0] == gsettings_printed(store, t.1, t.2)
        }
}

/// The schemas and keys that the GNOME commands write are told apart.
#[verifier::spinoff_prover]
proof fn lemma_gnome_names()
    ensures
        gnome_proxy_schema() + "."@ + "http"@ == "org.gnome.system.proxy.http"@,
        gnome_proxy_schema() + "."@ + "https"@ == "org.gnome.system.proxy.https"@,
        gnome_proxy_schema() + "."@ + "socks"@ == "org.gnome.system.proxy.socks"@,
        "org.gnome.system.proxy."@ == gnome_proxy_schema() + "."@,
        gnome_proxy_schema() != "org.gnome.system.proxy.http"@,
        gnome_proxy_schema() != "org.gnome.system.proxy.https"@,
        gnome_proxy_schema() != "org.gnome.system.proxy.socks"@,
        "org.gnome.system.proxy.http"@ != "org.gnome.system.proxy.https"@,
        "org.gnome.system.proxy.http"@ != "org.gnome.system.proxy.socks"@,
        "org.gnome.system.proxy.https"@ != "org.gnome.system.proxy.socks"@,
        "mode"@ != "ignore-hosts"@,
        "mode"@ != "use-same-proxy"@,
        "mode"@ != "autoconfig-url"@,
        "mode"@ != "port"@,
        "host"@ != "port"@,
        "host"@ != "use-same-proxy"@,
        "host"@ != "ignore-hosts"@,
        "ignore-hosts"@ != "port"@,
        "ignore-hosts"@ != "use-same-proxy"@,
        "autoconfig-url"@ != "ignore-hosts"@,
        "autoconfig-url"@ != "port"@,
        "autoconfig-url"@ != "use-same-proxy"@,
        "ftp_server"@ != "http_server"@,
        "ftp_server"@ != "https_server"@,
        "ftp_server"@ != "socks_server"@,
        clean("manual"@) == "manual"@,
        clean("auto"@) == "auto"@,
        clean("true"@) == "true"@,
        "manual"@ != "auto"@,
        "none"@ != "auto"@,
        "none"@ != "manual"@,
        "true"@.len() > 0,
        "manual"@.len() > 0,
        "auto"@.len() > 0,
{
    reveal_strlit("org.gnome.system.proxy");
    reveal_strlit("org.gnome.system.proxy.");
    reveal_strlit(".");
    reveal_strlit("http");
    reveal_strlit("https");
    reveal_strlit("socks");
    reveal_strlit("org.gnome.system.proxy.http");
    reveal_strlit("org.gnome.system.proxy.https");
    reveal_strlit("org.gnome.system.proxy.socks");
    reveal_strlit("mode");
    reveal_strlit("host");
    reveal_strlit("port");
    reveal_strlit("ignore-hosts");
    reveal_strlit("use-same-proxy");
    reveal_strlit("autoconfig-url");
    reveal_strlit("ftp_server");
    reveal_strlit("http_server");
    reveal_strlit("https_server");
    reveal_strlit("socks_server");
    reveal_strlit("manual");
    reveal_strlit("auto");
    reveal_strlit("none");
    reveal_strlit("true");
    assert(gnome_proxy_schema() + "."@ + "http"@ =~= "org.gnome.system.proxy.http"@);
    assert(gnome_proxy_schema() + "."@ + "https"@ =~= "org.gnome.system.proxy.https"@);
    assert(gnome_proxy_schema() + "."@ + "socks"@ =~= "org.gnome.system.proxy.socks"@);
    assert("org.gnome.system.proxy."@ =~= gnome_proxy_schema() + "."@);
    assert("org.gnome.system.proxy.https"@[23] != "org.gnome.system.proxy.socks"@[23]);
    assert("mode"@[0] != "port"@[0]);
    assert("host"@[0] != "port"@[0]);
    assert("autoconfig-url"@[0] != "use-same-proxy"@[0]);
    assert("manual"@.len() != "auto"@.len());
    assert("ftp_server"@.len() != "http_server"@.len());
    assert("ftp_server"@.len() != "https_server"@.len());
    assert("ftp_server"@[0] != "socks_server"@[0]);
    assert("none"@[0] != "auto"@[0]);
    assert("none"@.len() != "manual"@.len());
    lemma_clean_plain("manual"@);
    lemma_clean_plain("auto"@);
    lemma_clean_plain("true"@);
}

/// The entries of the query table, one by one.
proof fn lemma_gnome_table()
    ensures
        gnome_query_table()[0] == ("mode"@, gnome_proxy_schema(), "mode"@),
        gnome_query_table()[1] == ("ignore-hosts"@, gnome_proxy_schema(), "ignore-hosts"@),
        gnome_query_table()[2] == ("autoconfig-url"@, gnome_proxy_schema(), "autoconfig-url"@),
        gnome_query_table()[3] == ("use-same-proxy"@, gnome_proxy_schema(), "use-same-proxy"@),
        gnome_query_table()[4] == ("http_host"@, "org.gnome.system.proxy.http"@, "host"@),
        gnome_query_table()[5] == ("http_port"@, "org.gnome.system.proxy.http"@, "port"@),
        gnome_query_table()[6] == ("https_host"@, "org.gnome.system.proxy.https"@, "host"@),
        gnome_query_table()[7] == ("https_port"@, "org.gnome.system.proxy.https"@, "port"@),
        gnome_query_table()[10] == ("socks_host"@, "org.gnome.system.proxy.socks"@, "host"@),
        gnome_query_table()[11] == ("socks_port"@, "org.gnome.system.proxy.socks"@, "port"@),
        gnome_query_table().len() == 12,
{
}

/// A host printed as a string and a port printed as a number read back as the
/// server `host:port`.
proof fn lemma_gnome_server_read(host: Seq<char>, port: nat)
    requires
        clean(host) == host,
        host.len() > 0,
        port > 0,
    ensures
        server_text(seq!['\''] + host + seq!['\'', '\n'], decimal(port) + seq!['\n']) == host + seq![':'] + decimal(port),
        split_server(host + seq![':'] + decimal(port)) == (host, decimal(port)),
{
    let p = decimal(port);
    lemma_decimal_digits(port);
    lemma_clean_plain(p);
    lemma_clean_quoted(host);
    lemma_clean_line(p);
    assert(server_text(host, p) == host + seq![':'] + p);
    law_split_formatted_server(host, p);
}

/// After the writes of setting a proxy `host:port` on GNOME, a GNOME query reads back
/// the manual proxy on, the same server for all, `host:port` for HTTP, HTTPS and
/// SOCKS, and the automatic proxy off; for a host that is plain text already (no
/// surrounding quotes, brackets or space, no quote or backslash inside) and a port
/// number between 1 and 65535.
#[verifier::spinoff_prover]
pub proof fn law_gnome_reads_back_proxy(
    prior: Map<(Seq<char>, Seq<char>), Seq<char>>,
    m: Map<Seq<char>, Seq<char>>,
    host: Seq<char>,
    port: nat,
    bypass: Seq<char>,
)
    requires
        clean(host) == host,
        host.len() > 0,
        forall|k: int| 0 <= k < host.len() ==> #[trigger] host[k] != '\'' && host[k] != '\\',
        0 < port <= 65535,
        gnome_outputs_read(
            m,
            gnome_store_after(prior, gnome_proxy_commands(requested_proxy_config(host + seq![':'] + decimal(port), bypass))),
        ),
    ensures
        ({
            let proxy = host + seq![':'] + decimal(port);
            let c = gnome_config(m);
            &&& c.proxy_enable
            &&& c.same_for_all
            &&& c.servers["http_server"@] == proxy
            &&& c.servers["https_server"@] == proxy
            &&& c.servers["socks_server"@] == proxy
            &&& !c.pac_enable
        }),
{
    lemma_gnome_names();
    lemma_gnome_table();
    lemma_gnome_server_read(host, port);
    let p = decimal(port);
    let proxy = host + seq![':'] + p;
    let cfg = requested_proxy_config(proxy, bypass);
    let sh = "org.gnome.system.proxy.http"@;
    let ss = "org.gnome.system.proxy.https"@;
    let sk = "org.gnome.system.proxy.socks"@;
    assert(setting(cfg.servers, "http_server"@) == proxy);
    assert(setting(cfg.servers, "https_server"@) == proxy);
    assert(setting(cfg.servers, "socks_server"@) == proxy);
    assert(!cfg.servers.contains_key("ftp_server"@));
    assert(gnome_server_commands(cfg.servers, "ftp"@, "ftp_server"@) =~= Seq::<CommandView>::empty());
    let head = seq![
        gsettings_set(gnome_proxy_schema(), "mode"@, "manual"@),
        gsettings_set(sh, "host"@, host),
        gsettings_set(sh, "port"@, p),
        gsettings_set(ss, "host"@, host),
        gsettings_set(ss, "port"@, p),
        gsettings_set(sk, "host"@, host),
        gsettings_set(sk, "port"@, p),
    ];
    let ign: Seq<CommandView> = if bypass.len() > 0 {
        seq![gsettings_set(gnome_proxy_schema(), "ignore-hosts"@, gnome_ignore_hosts(bypass))]
    } else {
        Seq::empty()
    };
    let last = gsettings_set(gnome_proxy_schema(), "use-same-proxy"@, "true"@);
    let cmds = gnome_proxy_commands(cfg);
    assert(cmds =~= head + ign + seq![last]);
    let st0 = gnome_store_after(prior, head);
    reveal_with_fuel(gnome_store_after, 9);
    assert(head.drop_last() =~= head.take(6));
    assert(head.take(6).drop_last() =~= head.take(5));
    assert(head.take(5).drop_last() =~= head.take(4));
    assert(head.take(4).drop_last() =~= head.take(3));
    assert(head.take(3).drop_last() =~= head.take(2));
    assert(head.take(2).drop_last() =~= head.take(1));
    assert(head.take(1).drop_last() =~= Seq::<CommandView>::empty());
    let st1 = gnome_store_after(prior, head + ign);
    if bypass.len() > 0 {
        assert((head + ign).drop_last() =~= head);
    } else {
        assert(head + ign =~= head);
    }
    assert((head + ign + seq![last]).drop_last() =~= head + ign);
    let st = gnome_store_after(prior, cmds);
    assert(st[(gnome_proxy_schema(), "mode"@)] == "manual"@);
    assert(st[(gnome_proxy_schema(), "use-same-proxy"@)] == "true"@);
    assert(st[(sh, "host"@)] == host);
    assert(st[(sh, "port"@)] == p);
    assert(st[(ss, "host"@)] == host);
    assert(st[(ss, "port"@)] == p);
    assert(st[(sk, "host"@)] == host);
    assert(st[(sk, "port"@)] == p);
    lemma_clean_quoted("manual"@);
    lemma_clean_line("true"@);
    assert(setting(m, "mode"@) == gsettings_printed(st, gnome_proxy_schema(), "mode"@));
    assert(setting(m, "use-same-proxy"@) == gsettings_printed(st, gnome_proxy_schema(), "use-same-proxy"@));
    assert(setting(m, "http_host"@) == gsettings_printed(st, sh, "host"@));
    assert(setting(m, "http_port"@) == gsettings_printed(st, sh, "port"@));
    assert(setting(m, "https_host"@) == gsettings_printed(st, ss, "host"@));
    assert(setting(m, "https_port"@) == gsettings_printed(st, ss, "port"@));
    assert(setting(m, "socks_host"@) == gsettings_printed(st, sk, "host"@));
    assert(setting(m, "socks_port"@) == gsettings_printed(st, sk, "port"@));
}

/// After the writes of turning the automatic proxy on on GNOME, a GNOME query reads
/// back the automatic proxy on with the URL and the manual proxy off, for a URL that
/// is plain text already (no surrounding quotes, brackets or space, no quote or
/// backslash inside).
#[verifier::spinoff_prover]
pub proof fn law_gnome_reads_back_pac(
    prior: Map<(Seq<char>, Seq<char>), Seq<char>>,
    m: Map<Seq<char>, Seq<char>>,
    url: Seq<char>,
)
    requires
        clean(url) == url,
        forall|k: int| 0 <= k < url.len() ==> #[trigger] url[k] != '\'' && url[k] != '\\',
        gnome_outputs_read(m, gnome_store_after(prior, gnome_pac_commands(url))),
    ensures
        gnome_config(m).pac_enable,
        gnome_config(m).pac_url == url,
        !gnome_config(m).proxy_enable,
{
    lemma_gnome_names();
    lemma_gnome_table();
    let cmds = gnome_pac_commands(url);
    reveal_with_fuel(gnome_store_after, 3);
    assert(cmds.drop_last() =~= cmds.take(1));
    assert(cmds.take(1).drop_last() =~= Seq::<CommandView>::empty());
    let st = gnome_store_after(prior, cmds);
    assert(st[(gnome_proxy_schema(), "mode"@)] == "auto"@);
    assert(st[(gnome_proxy_schema(), "autoconfig-url"@)] == url);
    lemma_clean_quoted("auto"@);
    if url.len() > 0 {
        lemma_clean_quoted(url);
    } else {
        lemma_clean_empty_quoted();
        assert(seq!['\''] + url + seq!['\'', '\n'] =~= seq!['\'', '\'', '\n']);
    }
    assert(setting(m, "mode"@) == gsettings_printed(st, gnome_proxy_schema(), "mode"@));
    assert(setting(m, "autoconfig-url"@) == gsettings_printed(st, gnome_proxy_schema(), "autoconfig-url"@));
}

/// After the write of turning the proxy off on GNOME, a GNOME query reads back both
/// the manual and the automatic proxy off.
pub proof fn law_gnome_reads_back_disabled(
    prior: Map<(Seq<char>, Seq<char>), Seq<char>>,
    m: Map<Seq<char>, Seq<char>>,
)
    requires
        gnome_outputs_read(m, gnome_store_after(prior, gnome_clear_commands())),
    ensures
        !gnome_config(m).proxy_enable,
        !gnome_config(m).pac_enable,
{
    lemma_gnome_names();
    lemma_gnome_table();
    reveal_strlit("none");
    reveal_strlit("manual");
    reveal_strlit("auto");
    let cmds = gnome_clear_commands();
    reveal_with_fuel(gnome_store_after, 2);
    assert(cmds.drop_last() =~= Seq::<CommandView>::empty());
    let st = gnome_store_after(prior, cmds);
    assert(st[(gnome_proxy_schema(), "mode"@)] == "none"@);
    lemma_clean_plain("none"@);
    lemma_clean_quoted("none"@);
    assert(setting(m, "mode"@) == gsettings_printed(st, gnome_proxy_schema(), "mode"@));
}

/// Spacing the commas of two texts one after the other spaces each.
proof fn lemma_spaced_concat(a: Seq<char>, b: Seq<char>)
    ensures
        spaced_commas(a + b) == spaced_commas(a) + spaced_commas(b),
    decreases b.len(),
{
    if b.len() == 0 {
        assert(a + b =~= a);
        assert(spaced_commas(a) + spaced_commas(b) =~= spaced_commas(a));
    } else {
        lemma_spaced_concat(a, b.drop_last());
        assert((a + b).drop_last() =~= a + b.drop_last());
        assert((a + b).last() == b.last());
    }
}

/// A text without commas has none to space.
proof fn lemma_spaced_plain(s: Seq<char>)
    requires
        forall|k: int| 0 <= k < s.len() ==> #[trigger] s[k] != ',',
    ensures
        spaced_commas(s) == s,
    decreases s.len(),
{
    if s.len() > 0 {
        let t = s.drop_last();
        assert forall|k: int| 0 <= k < t.len() implies #[trigger] t[k] != ',' by {
            assert(t[k] == s[k]);
        }
        lemma_spaced_plain(t);
        assert(s.last() == s[s.len() - 1]);
        assert(t + seq![s.last()] =~= s);
    }
}

/// The bypass items are plain: each is nonempty, left alone by cleaning, and holds no
/// quote or backslash (nor, being a piece of a split at commas, a comma).
pub open spec fn plain_bypass_items(bypass: Seq<char>) -> bool {
    forall|i: int|
        0 <= i < split(bypass, ',').len() ==> {
            let item = #[trigger] split(bypass, ',')[i];
            &&& item.len() > 0
            &&& clean(item) == item
            &&& forall|k: int| 0 <= k < item.len() ==> #[trigger] item[k] != '\'' && item[k] != '\\'
        }
}

/// The pieces of the printed array `a', 'b', 'c` split at its commas: each item, with
/// ` '` before it but for the first and `'` after it but for the last.
pub open spec fn quoted_pieces(items: Seq<Seq<char>>) -> Seq<Seq<char>> {
    Seq::new(
        items.len(),
        |i: int|
            (if i == 0 {
                Seq::<char>::empty()
            } else {
                seq![' ', '\'']
            }) + items[i] + (if i == items.len() - 1 {
                Seq::<char>::empty()
            } else {
                seq!['\'']
            }),
    )
}

/// The separator of printed array items.
proof fn lemma_array_separators()
    ensures
        "','"@ == seq!['\'', ',', '\''],
        "', '"@ == seq!['\'', ',', ' ', '\''],
        "['"@ == seq!['[', '\''],
        "']"@ == seq!['\'', ']'],
        spaced_commas(seq!['\'', ',', '\'']) == seq!['\'', ',', ' ', '\''],
        spaced_commas(seq!['[', '\'']) == seq!['[', '\''],
        spaced_commas(seq!['\'', ']']) == seq!['\'', ']'],
{
    reveal_strlit("','");
    reveal_strlit("', '");
    reveal_strlit("['");
    reveal_strlit("']");
    reveal_with_fuel(spaced_commas, 4);
    assert(seq!['\'', ',', '\''].drop_last() =~= seq!['\'', ',']);
    assert(seq!['\'', ','].drop_last() =~= seq!['\'']);
    assert(seq!['\''].drop_last() =~= Seq::<char>::empty());
    assert(spaced_commas(seq!['\'', ',', '\'']) =~= seq!['\'', ',', ' ', '\'']);
    assert(seq!['[', '\''].drop_last() =~= seq!['[']);
    assert(seq!['['].drop_last() =~= Seq::<char>::empty());
    assert(spaced_commas(seq!['[', '\'']) =~= seq!['[', '\'']);
    assert(seq!['\'', ']'].drop_last() =~= seq!['\'']);
    assert(spaced_commas(seq!['\'', ']']) =~= seq!['\'', ']']);
}

/// The items written joined by `','` print joined by `', '`.
proof fn lemma_spaced_join(items: Seq<Seq<char>>)
    requires
        items.len() > 0,
        forall|i: int, k: int| 0 <= i < items.len() && 0 <= k < items[i].len() ==> #[trigger] items[i][k] != ',',
    ensures
        spaced_commas(join(items, seq!['\'', ',', '\''])) == join(items, seq!['\'', ',', ' ', '\'']),
    decreases items.len(),
{
    lemma_array_separators();
    let n = items.len();
    assert forall|k: int| 0 <= k < items[n - 1].len() implies #[trigger] items[n - 1][k] != ',' by {
        assert(items[n - 1][k] != ',');
    }
    lemma_spaced_plain(items[n - 1]);
    if n > 1 {
        let d = items.drop_last();
        assert forall|i: int, k: int| 0 <= i < d.len() && 0 <= k < d[i].len() implies #[trigger] d[i][k] != ',' by {
            assert(d[i] == items[i]);
        }
        lemma_spaced_join(d);
        let a = join(d, seq!['\'', ',', '\'']);
        lemma_spaced_concat(a + seq!['\'', ',', '\''], items.last());
        lemma_spaced_concat(a, seq!['\'', ',', '\'']);
        assert(items.last() == items[n - 1]);
    }
}

/// Splitting the printed array items at their commas gives the quoted pieces.
#[verifier::spinoff_prover]
proof fn lemma_split_quoted_join(items: Seq<Seq<char>>)
    requires
        items.len() > 0,
        forall|i: int, k: int| 0 <= i < items.len() && 0 <= k < items[i].len() ==> #[trigger] items[i][k] != ',',
    ensures
        split(join(items, seq!['\'', ',', ' ', '\'']), ',') == quoted_pieces(items),
    decreases items.len(),
{
    let n = items.len();
    let sep = seq!['\'', ',', ' ', '\''];
    if n == 1 {
        assert forall|k: int| 0 <= k < items[0].len() implies #[trigger] items[0][k] != ',' by {
            assert(items[0][k] != ',');
        }
        lemma_split_plain(items[0], ',');
        assert(quoted_pieces(items) =~= seq![items[0]]);
    } else {
        let d = items.drop_last();
        assert forall|i: int, k: int| 0 <= i < d.len() && 0 <= k < d[i].len() implies #[trigger] d[i][k] != ',' by {
            assert(d[i] == items[i]);
        }
        lemma_split_quoted_join(d);
        let jd = join(d, sep);
        let y = seq![' ', '\''] + items.last();
        assert(items.last() == items[n - 1]);
        assert forall|k: int| 0 <= k < y.len() implies #[trigger] y[k] != ',' by {
            if k >= 2 {
                assert(y[k] == items[n - 1][k - 2]);
            }
        }
        assert(join(items, sep) =~= (jd + seq!['\'']) + seq![','] + y);
        lemma_split_last(jd + seq!['\''], y, ',');
        lemma_split_append(jd, seq!['\''], ',');
        let q = quoted_pieces(d);
        let r = q.update(q.len() - 1, q.last() + seq!['\'']).push(y);
        assert(r =~= quoted_pieces(items)) by {
            assert forall|i: int| 0 <= i < n implies #[trigger] r[i] == quoted_pieces(items)[i] by {
                if i < n - 2 {
                    assert(r[i] == q[i]);
                } else if i == n - 2 {
                    assert(r[i] == q[n - 2] + seq!['\'']);
                    assert(q[n - 2] + seq!['\''] =~= quoted_pieces(items)[i]);
                } else {
                    assert(r[i] == y);
                    assert(y =~= quoted_pieces(items)[i]);
                }
            }
        }
    }
}

/// Pieces that each clean to a nonempty item keep every item after cleaning.
proof fn lemma_clean_nonempty_all(ps: Seq<Seq<char>>, items: Seq<Seq<char>>)
    requires
        ps.len() == items.len(),
        forall|i: int| 0 <= i < ps.len() ==> clean(#[trigger] ps[i]) == items[i] && items[i].len() > 0,
    ensures
        clean_nonempty(ps) == items,
    decreases ps.len(),
{
    if ps.len() > 0 {
        let n = ps.len();
        assert forall|i: int| 0 <= i < ps.drop_last().len() implies clean(#[trigger] ps.drop_last()[i]) == items.drop_last()[i]
            && items.drop_last()[i].len() > 0 by {
            assert(ps.drop_last()[i] == ps[i]);
        }
        lemma_clean_nonempty_all(ps.drop_last(), items.drop_last());
        assert(clean(ps[n - 1]) == items[n - 1]);
        assert(ps.last() == ps[n - 1]);
        assert(items.drop_last().push(items[n - 1]) =~= items);
    } else {
        assert(items =~= Seq::<Seq<char>>::empty());
    }
}

/// After the writes of setting a proxy with a bypass list on GNOME, a GNOME query reads
/// back the bypass list, for a list of plain items.
#[verifier::spinoff_prover]
pub proof fn law_gnome_reads_back_bypass(
    prior: Map<(Seq<char>, Seq<char>), Seq<char>>,
    m: Map<Seq<char>, Seq<char>>,
    proxy: Seq<char>,
    bypass: Seq<char>,
)
    requires
        plain_bypass_items(bypass),
        gnome_outputs_read(m, gnome_store_after(prior, gnome_proxy_commands(requested_proxy_config(proxy, bypass)))),
    ensures
        gnome_config(m).bypass == bypass,
{
    lemma_gnome_names();
    lemma_gnome_table();
    lemma_array_separators();
    let items = split(bypass, ',');
    lemma_split_nonempty(bypass, ',');
    lemma_split_pieces(bypass, ',');
    let n = items.len();
    assert(items[0].len() > 0);
    assert(bypass.len() > 0) by {
        if bypass.len() == 0 {
            assert(items =~= seq![Seq::<char>::empty()]);
        }
    }
    // The last two writes are the bypass list and `use-same-proxy`.
    let cfg = requested_proxy_config(proxy, bypass);
    let cmds = gnome_proxy_commands(cfg);
    let ign = gsettings_set(gnome_proxy_schema(), "ignore-hosts"@, gnome_ignore_hosts(bypass));
    assert(cmds.last() == gsettings_set(gnome_proxy_schema(), "use-same-proxy"@, "true"@));
    assert(cmds.drop_last().last() == ign);
    let st = gnome_store_after(prior, cmds);
    let c1 = cmds.drop_last();
    let s1 = gnome_store_after(prior, c1);
    assert(st == s1.insert((gnome_proxy_schema(), "use-same-proxy"@), "true"@));
    assert(s1 == gnome_store_after(prior, c1.drop_last()).insert(
        (gnome_proxy_schema(), "ignore-hosts"@),
        gnome_ignore_hosts(bypass),
    ));
    assert(st[(gnome_proxy_schema(), "ignore-hosts"@)] == gnome_ignore_hosts(bypass));
    // What gsettings prints of the array.
    let wsep = seq!['\'', ',', '\''];
    let psep = seq!['\'', ',', ' ', '\''];
    lemma_spaced_join(items);
    let written = seq!['[', '\''] + join(items, wsep) + seq!['\'', ']'];
    assert(gnome_ignore_hosts(bypass) == written);
    lemma_spaced_concat(seq!['[', '\''] + join(items, wsep), seq!['\'', ']']);
    lemma_spaced_concat(seq!['[', '\''], join(items, wsep));
    let j = join(items, psep);
    assert(spaced_commas(written) == seq!['[', '\''] + j + seq!['\'', ']']);
    assert(setting(m, "ignore-hosts"@) == seq!['[', '\''] + j + seq!['\'', ']', '\n']);
    // The joined items are clean.
    assert(items[0].len() > 0 && clean(items[0]) == items[0]);
    assert(items[n - 1].len() > 0 && clean(items[n - 1]) == items[n - 1]);
    lemma_clean_fixed(items[0]);
    lemma_clean_fixed(items[n - 1]);
    if n > 1 {
        lemma_join_front(items, psep);
    }
    assert(j[0] == items[0][0]);
    assert(j.last() == items.last().last());
    assert(items.last() == items[n - 1]);
    lemma_clean_plain(j);
    lemma_clean_wrapped(seq!['[', '\''], j, seq!['\'', ']', '\n']);
    assert(clean(setting(m, "ignore-hosts"@)) == j);
    // The printed array carries no type tag.
    let raw = setting(m, "ignore-hosts"@);
    assert(raw[0] == '[');
    assert(strip_lead(CharClass::Whitespace, raw) == raw);
    lemma_strip_trail_shape(CharClass::Whitespace, raw);
    assert(!has_prefix(trim(raw), "@as"@)) by {
        reveal_strlit("@as");
        let t = trim(raw);
        if has_prefix(t, "@as"@) {
            let k = choose|k: int| 0 <= k <= raw.len() && t == raw.take(k);
            assert(t.take(3)[0] == '@');
            assert(t[0] == raw[0]);
        }
    }
    assert(untagged_array(raw) == raw);
    // Splitting at commas and cleaning each piece gives the items back.
    lemma_split_quoted_join(items);
    let ps = quoted_pieces(items);
    assert forall|i: int| 0 <= i < ps.len() implies clean(#[trigger] ps[i]) == items[i] && items[i].len() > 0 by {
        let pre = if i == 0 { Seq::<char>::empty() } else { seq![' ', '\''] };
        let post = if i == n - 1 { Seq::<char>::empty() } else { seq!['\''] };
        assert(ps[i] == pre + items[i] + post);
        lemma_clean_wrapped(pre, items[i], post);
    }
    lemma_clean_nonempty_all(ps, items);
    lemma_join_split(bypass, ',');
    reveal_strlit(",");
    assert(","@ =~= seq![',']);
    assert(j.len() > 0);
    assert(split(j, ',') == ps);
    assert(clean_nonempty(split(j, ',')) == items);
    assert(gnome_bypass(j) == join(items, seq![',']));
}

/// Each protocol's server in a GNOME query is read from that protocol's own host and
/// port: two query outputs that agree on them read the same server.
pub proof fn law_gnome_servers_from_own_keys(m1: Map<Seq<char>, Seq<char>>, m2: Map<Seq<char>, Seq<char>>)
    ensures
        setting(m1, "http_host"@) == setting(m2, "http_host"@) && setting(m1, "http_port"@) == setting(m2, "http_port"@)
            ==> gnome_config(m1).servers["http_server"@] == gnome_config(m2).servers["http_server"@],
        setting(m1, "https_host"@) == setting(m2, "https_host"@) && setting(m1, "https_port"@) == setting(m2, "https_port"@)
            ==> gnome_config(m1).servers["https_server"@] == gnome_config(m2).servers["https_server"@],
        setting(m1, "socks_host"@) == setting(m2, "socks_host"@) && setting(m1, "socks_port"@) == setting(m2, "socks_port"@)
            ==> gnome_config(m1).servers["socks_server"@] == gnome_config(m2).servers["socks_server"@],
        setting(m1, "ftp_host"@) == setting(m2, "ftp_host"@) && setting(m1, "ftp_port"@) == setting(m2, "ftp_port"@)
            ==> gnome_config(m1).servers["ftp_server"@] == gnome_config(m2).servers["ftp_server"@],
{
    lemma_server_keys();
}

/// Each protocol's server in a KDE query is read from that protocol's own key: two
/// query outputs that agree on it read the same server.
pub proof fn law_kde_servers_from_own_keys(m1: Map<Seq<char>, Seq<char>>, m2: Map<Seq<char>, Seq<char>>)
    ensures
        setting(m1, "httpProxy"@) == setting(m2, "httpProxy"@)
            ==> kde_config(m1).servers["http_server"@] == kde_config(m2).servers["http_server"@],
        setting(m1, "httpsProxy"@) == setting(m2, "httpsProxy"@)
            ==> kde_config(m1).servers["https_server"@] == kde_config(m2).servers["https_server"@],
        setting(m1, "socksProxy"@) == setting(m2, "socksProxy"@)
            ==> kde_config(m1).servers["socks_server"@] == kde_config(m2).servers["socks_server"@],
        setting(m1, "ftpProxy"@) == setting(m2, "ftpProxy"@)
            ==> kde_config(m1).servers["ftp_server"@] == kde_config(m2).servers["ftp_server"@],
{
    lemma_server_keys();
}

// ───────────────────────────── operations ─────────────────────────────

/// The configuration that a proxy request sets: manual proxy on, one server for
/// HTTP, HTTPS and SOCKS, the bypass list.
pub open spec fn requested_proxy_config(proxy: Seq<char>, bypass: Seq<char>) -> ConfigView {
    ConfigView {
        proxy_enable: true,
        same_for_all: true,
        servers: map!["http_server"@ => proxy, "https_server"@ => proxy, "socks_server"@ => proxy],
        bypass: bypass,
        pac_enable: false,
        pac_url: Seq::empty(),
    }
}

/// The proxy and bypass list that a request sets, given the current settings where
/// the request needs them.
pub open spec fn proxy_request(opt: Option<&Options>, current: Option<&ProxyConfig>) -> (
    Seq<char>,
    Seq<char>,
) {
    if proxy_request_wants_query(opt) {
        effective_proxy_request(opt, current->0@)
    } else {
        (opt_proxy(opt), opt_bypass(opt))
    }
}

/// Setting a proxy without a bypass list keeps the current bypass list, and with one
/// sets it; without a proxy it keeps the current HTTP server, and with one sets it.
pub proof fn law_proxy_request_keeps_current_bypass(opt: Option<&Options>, current: Option<&ProxyConfig>)
    requires
        proxy_request_wants_query(opt) ==> current is Some,
    ensures
        opt_bypass(opt).len() == 0 ==> proxy_request(opt, current).1 == current->0.proxy.bypass@,
        opt_bypass(opt).len() > 0 ==> proxy_request(opt, current).1 == opt_bypass(opt),
        opt_proxy(opt).len() > 0 ==> proxy_request(opt, current).0 == opt_proxy(opt),
{
    if proxy_request_wants_query(opt) {
        law_proxy_request_keeps_current(opt, current->0@);
    }
}

/// On KDE, setting a proxy without a bypass list writes the current bypass list back
/// (`NoProxyFor`), so a KDE query reads it back unchanged.
pub proof fn law_kde_set_proxy_keeps_bypass(
    store: Map<Seq<char>, Seq<char>>,
    kde6: bool,
    opt: Option<&Options>,
    current: Option<&ProxyConfig>,
)
    requires
        proxy_request_wants_query(opt) ==> current is Some,
        opt_bypass(opt).len() == 0,
    ensures
        setting(
            kde_store_after(
                store,
                kde_proxy_commands(
                    kde6,
                    requested_proxy_config(proxy_request(opt, current).0, proxy_request(opt, current).1),
                ),
            ),
            "NoProxyFor"@,
        ) == current->0.proxy.bypass@,
{
    law_proxy_request_keeps_current_bypass(opt, current);
    lemma_kde_proxy_store(store, kde6, proxy_request(opt, current).0, proxy_request(opt, current).1);
}

/// The PAC URL that a request sets, given the current settings where the request
/// needs them.
pub open spec fn pac_request(opt: Option<&Options>, current: Option<&ProxyConfig>) -> Seq<char> {
    if pac_request_wants_query(opt) {
        current->0.pac.url@
    } else {
        opt_pac_url(opt)
    }
}

/// The configuration that a proxy request sets.
pub fn proxy_config_for(proxy: String, bypass: String) -> (r: ProxyConfig)
    ensures
        r@ == requested_proxy_config(proxy@, bypass@),
{
    let mut servers = StrMap::new();
    servers.insert(to_string("http_server"), proxy.clone());
    servers.insert(to_string("https_server"), proxy.clone());
    servers.insert(to_string("socks_server"), proxy);
    let r = ProxyConfig {
        proxy: crate::types::ProxyInfo { enable: true, same_for_all: true, servers, bypass },
        pac: crate::types::PacInfo::new(),
    };
    assert(r@ =~= requested_proxy_config(r@.servers["http_server"@], r@.bypass));
    r
}

/// The commands that turn the proxy off.
pub fn disable_proxy(e: &Environment) -> (r: Result<Vec<CommandSpec>, ProxyError>)
    ensures
        dispatch_ok(e, r, kde_clear_commands(e.is_kde6), gnome_clear_commands()),
{
    if e.is_kde {
        Ok(clear_kde_proxy(e))
    } else if e.is_gnome {
        Ok(clear_gnome_proxy())
    } else {
        Err(e.unsupported())
    }
}

/// The commands that set the manual proxy that `opt` asks for; where `opt` leaves
/// the proxy or the bypass list empty, it comes from `current`, the settings read
/// before.
pub fn set_proxy(opt: Option<&Options>, e: &Environment, current: Option<&ProxyConfig>) -> (r:
    Result<Vec<CommandSpec>, ProxyError>)
    requires
        proxy_request_wants_query(opt) ==> current is Some,
    ensures
        dispatch_ok(
            e,
            r,
            kde_proxy_commands(
                e.is_kde6,
                requested_proxy_config(proxy_request(opt, current).0, proxy_request(opt, current).1),
            ),
            gnome_proxy_commands(
                requested_proxy_config(proxy_request(opt, current).0, proxy_request(opt, current).1),
            ),
        ),
{
    let (proxy, bypass) = resolve_proxy_request(opt, current);
    let config = proxy_config_for(proxy, bypass);
    if e.is_kde {
        Ok(set_kde_proxy(e, &config))
    } else if e.is_gnome {
        Ok(set_gnome_proxy(&config))
    } else {
        Err(e.unsupported())
    }
}

/// The commands that turn the automatic proxy on with the URL that `opt` asks for,
/// or with the current one from `current` where `opt` has none.
pub fn set_pac(opt: Option<&Options>, e: &Environment, current: Option<&ProxyConfig>) -> (r:
    Result<Vec<CommandSpec>, ProxyError>)
    requires
        pac_request_wants_query(opt) ==> current is Some,
    ensures
        dispatch_ok(
            e,
            r,
            kde_pac_commands(e.is_kde6, pac_request(opt, current)),
            gnome_pac_commands(pac_request(opt, current)),
        ),
{
    let url = resolve_pac_request(opt, current);
    let mut config = ProxyConfig::new();
    config.pac.enable = true;
    config.pac.url = url;
    if e.is_kde {
        Ok(set_kde_pac(e, &config))
    } else if e.is_gnome {
        Ok(set_gnome_pac(&config))
    } else {
        Err(e.unsupported())
    }
}

/// The read commands of a query, each with the name that its output is stored under.
pub fn query_proxy_commands(e: &Environment) -> (r: Result<Vec<(String, CommandSpec)>, ProxyError>)
    ensures
        r is Ok <==> (e.is_kde || e.is_gnome),
        r matches Ok(cmds) ==> named_views(cmds@) == (if e.is_kde {
            kde_query_keys().map_values(
                |k: Seq<char>| (k, kde_read(kde_names(e.is_kde6).0, kde_names(e.is_kde6).2, k)),
            )
        } else {
            gnome_query_table().map_values(
                |t: (Seq<char>, Seq<char>, Seq<char>)| (t.0, gsettings_get(t.1, t.2)),
            )
        }),
        r matches Err(err) ==> err matches ProxyError::UnsupportedDesktop(d) && d@ == e.desktop@,
{
    if e.is_kde {
        Ok(query_kde_commands(e))
    } else if e.is_gnome {
        Ok(query_gnome_commands())
    } else {
        Err(e.unsupported())
    }
}

/// Whether a read command of a query must report success for its output to count:
/// so for `gsettings`, not for KDE's read tool.
pub fn query_needs_success(e: &Environment) -> (r: bool)
    ensures
        r == !e.is_kde,
{
    !e.is_kde
}

/// The configuration that the outputs of the query's read commands describe, each
/// stored under the name that `query_proxy_commands` gave its command.
pub fn query_proxy_settings(e: &Environment, outputs: &StrMap) -> (r: Result<ProxyConfig, ProxyError>)
    ensures
        r is Ok <==> (e.is_kde || e.is_gnome),
        r matches Ok(c) ==> c@ == (if e.is_kde {
            kde_config(outputs@)
        } else {
            gnome_config(outputs@)
        }),
        r matches Err(err) ==> err matches ProxyError::UnsupportedDesktop(d) && d@ == e.desktop@,
{
    if e.is_kde {
        Ok(query_kde_settings(outputs))
    } else if e.is_gnome {
        Ok(query_gnome_settings(outputs))
    } else {
        Err(e.unsupported())
    }
}

} // verus!
