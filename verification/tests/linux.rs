use sysproxy::error::ProxyError;
use sysproxy::options::Options;
use sysproxy::platform::linux::context::{
    environ_items, environ_to_map,
    ensure_linux_session_env, env_slice_to_map, merge_env_maps, needs_peer_env,
    session_base_env, LinuxExecContext,
};
use sysproxy::platform::linux::{
    clear_gnome_proxy, clear_kde_proxy, disable_proxy, kde_cmd_names, proxy_config_for,
    query_gnome_commands, query_gnome_settings, query_kde_commands, query_kde_settings,
    query_needs_success, query_proxy_commands, query_proxy_settings, set_gnome_pac,
    set_gnome_proxy, set_kde_pac, set_kde_proxy, set_pac, set_proxy, Environment,
};
use sysproxy::platform::CommandSpec;
use sysproxy::strmap::StrMap;
use sysproxy::types::ProxyConfig;

fn map(pairs: &[(&str, &str)]) -> StrMap {
    let mut m = StrMap::new();
    for (k, v) in pairs {
        m.insert(k.to_string(), v.to_string());
    }
    m
}

fn env(desktop: &str, kde_version: Option<&str>) -> Environment {
    let mut pairs = vec![("XDG_CURRENT_DESKTOP", desktop)];
    if let Some(v) = kde_version {
        pairs.push(("KDE_SESSION_VERSION", v));
    }
    let ctx = LinuxExecContext::from_sources(None, map(&pairs), None, 1000, 1000, false);
    Environment::init(ctx).unwrap()
}

fn args(c: &CommandSpec) -> Vec<&str> {
    c.args.iter().map(|s| s.as_str()).collect()
}

#[test]
fn env_slice_to_map_splits_at_first_equals() {
    let items = vec![
        "A=1".to_string(),
        "B=x=y".to_string(),
        "NOEQ".to_string(),
        "A=2".to_string(),
        "=v".to_string(),
    ];
    let m = env_slice_to_map(&items);
    assert_eq!(m.get_or_empty("A"), "2");
    assert_eq!(m.get_or_empty("B"), "x=y");
    assert!(!m.contains_key("NOEQ"));
    assert_eq!(m.get_or_empty(""), "v");
}

#[test]
fn merge_env_maps_prefers_override() {
    let m = merge_env_maps(map(&[("A", "1"), ("B", "2")]), map(&[("B", "3")]));
    assert_eq!(m.get_or_empty("A"), "1");
    assert_eq!(m.get_or_empty("B"), "3");
}

#[test]
fn session_base_env_keeps_session_variables_that_are_set() {
    let m = session_base_env(&map(&[("PATH", "/usr/bin"), ("LANG", ""), ("HOME", "/root"), ("TERM", "xterm")]));
    assert_eq!(m.get_or_empty("PATH"), "/usr/bin");
    assert!(!m.contains_key("LANG"));
    assert!(!m.contains_key("HOME"));
    assert_eq!(m.get_or_empty("TERM"), "xterm");
}

#[test]
fn ensure_session_env_fills_runtime_dir_and_bus() {
    let mut m = StrMap::new();
    ensure_linux_session_env(&mut m, 1000);
    assert_eq!(m.get_or_empty("XDG_RUNTIME_DIR"), "/run/user/1000");
    assert_eq!(m.get_or_empty("DBUS_SESSION_BUS_ADDRESS"), "unix:path=/run/user/1000/bus");
}

#[test]
fn law_session_env_completed_keeps_existing_values() {
    let mut m = map(&[("XDG_RUNTIME_DIR", "/tmp/rt")]);
    ensure_linux_session_env(&mut m, 7);
    assert_eq!(m.get_or_empty("XDG_RUNTIME_DIR"), "/tmp/rt");
    assert_eq!(m.get_or_empty("DBUS_SESSION_BUS_ADDRESS"), "unix:path=/tmp/rt/bus");
    let mut n = map(&[("DBUS_SESSION_BUS_ADDRESS", "unix:abstract=x")]);
    ensure_linux_session_env(&mut n, 7);
    assert_eq!(n.get_or_empty("DBUS_SESSION_BUS_ADDRESS"), "unix:abstract=x");
    assert_eq!(n.get_or_empty("XDG_RUNTIME_DIR"), "/run/user/7");
}

#[test]
fn context_with_caller_environment_switches_identity() {
    let mut o = Options::default();
    o.environment = vec!["XDG_CURRENT_DESKTOP=KDE".to_string(), "PATH=/caller/bin".to_string()];
    o.peer_uid = 1001;
    o.peer_gid = 1002;
    let process = map(&[("PATH", "/usr/bin"), ("LANG", "C"), ("SECRET", "x")]);
    let ctx = LinuxExecContext::from_sources(Some(&o), process, None, 0, 0, true);
    assert!(ctx.use_credential);
    assert_eq!(ctx.uid, 1001);
    assert_eq!(ctx.gid, 1002);
    assert_eq!(ctx.env_map.get_or_empty("PATH"), "/caller/bin");
    assert_eq!(ctx.env_map.get_or_empty("LANG"), "C");
    assert!(!ctx.env_map.contains_key("SECRET"));
    assert_eq!(ctx.env_map.get_or_empty("XDG_RUNTIME_DIR"), "/run/user/1001");
}

#[test]
fn context_with_caller_pid_uses_its_environment() {
    let mut o = Options::default();
    o.peer_pid = 42;
    o.peer_uid = 5;
    o.peer_gid = 6;
    assert!(needs_peer_env(Some(&o)));
    let ctx = LinuxExecContext::from_sources(
        Some(&o),
        map(&[("TERM", "vt100")]),
        Some(map(&[("XDG_CURRENT_DESKTOP", "GNOME")])),
        0,
        0,
        false,
    );
    assert!(!ctx.use_credential);
    assert_eq!(ctx.uid, 5);
    assert_eq!(ctx.env_map.get_or_empty("XDG_CURRENT_DESKTOP"), "GNOME");
    assert_eq!(ctx.env_map.get_or_empty("TERM"), "vt100");
    assert_eq!(ctx.env_map.get_or_empty("DBUS_SESSION_BUS_ADDRESS"), "unix:path=/run/user/5/bus");
}

#[test]
fn context_without_options_is_the_process() {
    assert!(!needs_peer_env(None));
    let ctx = LinuxExecContext::from_sources(None, map(&[("A", "b")]), None, 3, 4, true);
    assert!(!ctx.use_credential);
    assert_eq!((ctx.uid, ctx.gid), (3, 4));
    assert_eq!(ctx.env_map.get_or_empty("A"), "b");
}

#[test]
fn context_new_reads_this_process() {
    let ctx = LinuxExecContext::new(None, map(&[("A", "b")]), None);
    assert_eq!(ctx.uid, nix::unistd::getuid().as_raw());
    assert_eq!(ctx.gid, nix::unistd::getgid().as_raw());
}

#[test]
fn environment_detects_desktops() {
    let k = env("KDE", Some("6"));
    assert!(k.is_kde && k.is_kde6 && !k.is_gnome);
    let k5 = env("KDE", Some("5"));
    assert!(k5.is_kde && !k5.is_kde6);
    for d in ["GNOME", "ubuntu:GNOME", "Unity", "X-Cinnamon", "niri"] {
        assert!(env(d, None).is_gnome, "{}", d);
    }
    let x = env("XFCE", None);
    assert!(!x.is_kde && !x.is_gnome);
}

#[test]
fn environment_without_desktop_fails() {
    let ctx = LinuxExecContext::from_sources(None, map(&[("XDG_CURRENT_DESKTOP", "")]), None, 0, 0, false);
    assert!(matches!(Environment::init(ctx), Err(ProxyError::DesktopNotSet)));
}

#[test]
fn unsupported_desktop_is_named() {
    let e = env("XFCE", None);
    match disable_proxy(&e) {
        Err(ProxyError::UnsupportedDesktop(d)) => assert_eq!(d, "XFCE"),
        other => panic!("{:?}", other.map(|v| v.len())),
    }
    assert!(matches!(query_proxy_commands(&e), Err(ProxyError::UnsupportedDesktop(_))));
    assert!(matches!(query_proxy_settings(&e, &StrMap::new()), Err(ProxyError::UnsupportedDesktop(_))));
}

#[test]
fn gnome_query_reads_twelve_settings() {
    let cmds = query_gnome_commands();
    assert_eq!(cmds.len(), 12);
    assert_eq!(cmds[0].0, "mode");
    assert_eq!(cmds[0].1.program, "gsettings");
    assert_eq!(args(&cmds[0].1), vec!["get", "org.gnome.system.proxy", "mode"]);
    assert_eq!(cmds[11].0, "socks_port");
    assert_eq!(args(&cmds[11].1), vec!["get", "org.gnome.system.proxy.socks", "port"]);
    assert!(query_needs_success(&env("GNOME", None)));
    assert!(!query_needs_success(&env("KDE", None)));
}

#[test]
fn gnome_settings_parse() {
    let s = map(&[
        ("mode", "'manual'\n"),
        ("ignore-hosts", "['localhost', '127.0.0.0/8', '']\n"),
        ("autoconfig-url", "''\n"),
        ("use-same-proxy", "true\n"),
        ("http_host", "'127.0.0.1'\n"),
        ("http_port", "7890\n"),
        ("https_host", "'127.0.0.1'\n"),
        ("https_port", "7890\n"),
        ("ftp_host", "''\n"),
        ("ftp_port", "0\n"),
        ("socks_host", "'127.0.0.1'\n"),
        ("socks_port", "0\n"),
    ]);
    let c = query_gnome_settings(&s);
    assert!(c.proxy.enable);
    assert!(c.proxy.same_for_all);
    assert!(!c.pac.enable);
    assert_eq!(c.pac.url, "");
    assert_eq!(c.proxy.servers.get_or_empty("http_server"), "127.0.0.1:7890");
    assert_eq!(c.proxy.servers.get_or_empty("https_server"), "127.0.0.1:7890");
    assert_eq!(c.proxy.servers.get_or_empty("socks_server"), "");
    assert_eq!(c.proxy.servers.get_or_empty("ftp_server"), "");
    assert_eq!(c.proxy.bypass, "localhost,127.0.0.0/8");
}

#[test]
fn gnome_empty_array_is_empty_bypass() {
    for out in ["@as []\n", "[]\n", "@as []"] {
        let c = query_gnome_settings(&map(&[("mode", "'none'\n"), ("ignore-hosts", out)]));
        assert_eq!(c.proxy.bypass, "");
    }
}

#[test]
fn gnome_auto_mode_is_pac() {
    let c = query_gnome_settings(&map(&[("mode", "'auto'"), ("autoconfig-url", "'http://x/pac'")]));
    assert!(!c.proxy.enable);
    assert!(c.pac.enable);
    assert_eq!(c.pac.url, "http://x/pac");
    assert_eq!(c.proxy.bypass, "");
}

#[test]
fn gnome_set_proxy_commands() {
    let c = proxy_config_for("127.0.0.1:7890".to_string(), "localhost,127.0.0.0/8".to_string());
    let v = set_gnome_proxy(&c);
    let got: Vec<Vec<&str>> = v.iter().map(args).collect();
    assert_eq!(
        got,
        vec![
            vec!["set", "org.gnome.system.proxy", "mode", "manual"],
            vec!["set", "org.gnome.system.proxy.http", "host", "127.0.0.1"],
            vec!["set", "org.gnome.system.proxy.http", "port", "7890"],
            vec!["set", "org.gnome.system.proxy.https", "host", "127.0.0.1"],
            vec!["set", "org.gnome.system.proxy.https", "port", "7890"],
            vec!["set", "org.gnome.system.proxy.socks", "host", "127.0.0.1"],
            vec!["set", "org.gnome.system.proxy.socks", "port", "7890"],
            vec!["set", "org.gnome.system.proxy", "ignore-hosts", "['localhost','127.0.0.0/8']"],
            vec!["set", "org.gnome.system.proxy", "use-same-proxy", "true"],
        ]
    );
    assert!(v.iter().all(|c| c.program == "gsettings"));
}

#[test]
fn gnome_set_proxy_skips_servers_without_host() {
    let c = proxy_config_for(":7890".to_string(), String::new());
    let v = set_gnome_proxy(&c);
    let got: Vec<Vec<&str>> = v.iter().map(args).collect();
    assert_eq!(
        got,
        vec![
            vec!["set", "org.gnome.system.proxy", "mode", "manual"],
            vec!["set", "org.gnome.system.proxy", "use-same-proxy", "true"],
        ]
    );
}

#[test]
fn gnome_pac_and_clear_commands() {
    let mut c = ProxyConfig::new();
    c.pac.url = "http://127.0.0.1:10000/pac".to_string();
    let v = set_gnome_pac(&c);
    assert_eq!(args(&v[0]), vec!["set", "org.gnome.system.proxy", "mode", "auto"]);
    assert_eq!(args(&v[1]), vec!["set", "org.gnome.system.proxy", "autoconfig-url", "http://127.0.0.1:10000/pac"]);
    let d = clear_gnome_proxy();
    assert_eq!(d.len(), 1);
    assert_eq!(args(&d[0]), vec!["set", "org.gnome.system.proxy", "mode", "none"]);
}

#[test]
fn kde_names_by_version() {
    assert_eq!(kde_cmd_names(&env("KDE", Some("6"))), ("kreadconfig6", "kwriteconfig6", "Proxy Settings"));
    assert_eq!(kde_cmd_names(&env("KDE", None)), ("kreadconfig5", "kwriteconfig5", "Proxy"));
}

#[test]
fn kde_query_commands() {
    let v = query_kde_commands(&env("KDE", Some("6")));
    assert_eq!(v.len(), 8);
    assert_eq!(v[6].0, "Proxy Config Script");
    assert_eq!(v[6].1.program, "kreadconfig6");
    assert_eq!(args(&v[6].1), vec!["--file", "kioslaverc", "--group", "Proxy Settings", "--key", "Proxy Config Script"]);
}

#[test]
fn kde_settings_parse() {
    let c = query_kde_settings(&map(&[
        ("ProxyType", "1\n"),
        ("httpProxy", "http://127.0.0.1 7890\n"),
        ("httpsProxy", "0\n"),
        ("socksProxy", "\n"),
        ("NoProxyFor", "localhost,127.0.0.1\n"),
        ("UseSameProxy", "true\n"),
    ]));
    assert!(c.proxy.enable);
    assert!(c.proxy.same_for_all);
    assert_eq!(c.proxy.servers.get_or_empty("http_server"), "http://127.0.0.1:7890");
    assert_eq!(c.proxy.servers.get_or_empty("https_server"), "");
    assert_eq!(c.proxy.servers.get_or_empty("socks_server"), "");
    assert_eq!(c.proxy.servers.get_or_empty("ftp_server"), "");
    assert!(c.proxy.servers.contains_key("ftp_server"));
    assert_eq!(c.proxy.bypass, "localhost,127.0.0.1");
    assert!(!c.pac.enable);
    let p = query_kde_settings(&map(&[("ProxyType", "2"), ("Proxy Config Script", "http://x/pac\n")]));
    assert!(p.pac.enable && !p.proxy.enable);
    assert_eq!(p.pac.url, "http://x/pac");
}

#[test]
fn kde_set_commands() {
    let e = env("KDE", None);
    let c = proxy_config_for("127.0.0.1:7890".to_string(), "localhost".to_string());
    let v = set_kde_proxy(&e, &c);
    let got: Vec<(&str, &str)> = v.iter().map(|c| (c.args[5].as_str(), c.args[6].as_str())).collect();
    assert_eq!(
        got,
        vec![
            ("ProxyType", "1"),
            ("httpProxy", "127.0.0.1:7890"),
            ("httpsProxy", "127.0.0.1:7890"),
            ("socksProxy", "127.0.0.1:7890"),
            ("ftpProxy", ""),
            ("NoProxyFor", "localhost"),
            ("UseSameProxy", "true"),
        ]
    );
    assert!(v.iter().all(|c| c.program == "kwriteconfig5" && c.args[3] == "Proxy"));
    let mut pc = ProxyConfig::new();
    pc.pac.url = "http://p".to_string();
    let p = set_kde_pac(&e, &pc);
    assert_eq!((p[0].args[5].as_str(), p[0].args[6].as_str()), ("ProxyType", "2"));
    assert_eq!((p[1].args[5].as_str(), p[1].args[6].as_str()), ("Proxy Config Script", "http://p"));
    let d = clear_kde_proxy(&e);
    assert_eq!((d[0].args[5].as_str(), d[0].args[6].as_str()), ("ProxyType", "0"));
}

/// What `kreadconfig` would read after the writes: each written value under its key.
fn store_after(cmds: &[CommandSpec]) -> StrMap {
    let mut m = StrMap::new();
    for c in cmds {
        m.insert(c.args[5].clone(), c.args[6].clone());
    }
    m
}

#[test]
fn law_kde_reads_back_proxy_example() {
    let e = env("KDE", Some("6"));
    let c = proxy_config_for("10.0.0.1:3128".to_string(), "localhost,.local".to_string());
    let read = query_kde_settings(&store_after(&set_kde_proxy(&e, &c)));
    assert!(read.proxy.enable && read.proxy.same_for_all && !read.pac.enable);
    for k in ["http_server", "https_server", "socks_server"] {
        assert_eq!(read.proxy.servers.get_or_empty(k), "10.0.0.1:3128");
    }
    assert_eq!(read.proxy.bypass, "localhost,.local");
}

#[test]
fn law_kde_reads_back_pac_and_disabled_example() {
    let e = env("KDE", None);
    let mut c = ProxyConfig::new();
    c.pac.url = "http://127.0.0.1:10000/pac".to_string();
    let read = query_kde_settings(&store_after(&set_kde_pac(&e, &c)));
    assert!(read.pac.enable && !read.proxy.enable);
    assert_eq!(read.pac.url, "http://127.0.0.1:10000/pac");
    let off = query_kde_settings(&store_after(&clear_kde_proxy(&e)));
    assert!(!off.pac.enable && !off.proxy.enable);
}

/// What a GNOME query would print after the writes: `gsettings get` prints a port or
/// a flag as it is, a string array with a space after each comma, and a string in
/// single quotes, each on its own line.
fn gnome_outputs_after(cmds: &[CommandSpec]) -> StrMap {
    let mut store: Vec<(String, String, String)> = Vec::new();
    for c in cmds {
        store.retain(|(s, k, _)| !(s == &c.args[1] && k == &c.args[2]));
        store.push((c.args[1].clone(), c.args[2].clone(), c.args[3].clone()));
    }
    let mut m = StrMap::new();
    for (name, c) in query_gnome_commands() {
        if let Some((_, k, v)) = store.iter().find(|(s, k, _)| s == &c.args[1] && k == &c.args[2]) {
            let printed = if k == "port" || k == "use-same-proxy" {
                format!("{}\n", v)
            } else if k == "ignore-hosts" {
                format!("{}\n", v.replace(',', ", "))
            } else {
                format!("'{}'\n", v)
            };
            m.insert(name, printed);
        }
    }
    m
}

#[test]
fn law_gnome_reads_back_proxy_example() {
    let c = proxy_config_for("10.0.0.1:3128".to_string(), "localhost,127.0.0.1,*.local".to_string());
    let read = query_gnome_settings(&gnome_outputs_after(&set_gnome_proxy(&c)));
    assert_eq!(read.proxy.bypass, "localhost,127.0.0.1,*.local");
    assert!(read.proxy.enable && read.proxy.same_for_all && !read.pac.enable);
    for k in ["http_server", "https_server", "socks_server"] {
        assert_eq!(read.proxy.servers.get_or_empty(k), "10.0.0.1:3128");
    }
    assert_eq!(read.proxy.servers.get_or_empty("ftp_server"), "");
}

#[test]
fn law_gnome_reads_back_pac_and_disabled_example() {
    let mut c = ProxyConfig::new();
    c.pac.url = "http://127.0.0.1:10000/pac".to_string();
    let read = query_gnome_settings(&gnome_outputs_after(&set_gnome_pac(&c)));
    assert!(read.pac.enable && !read.proxy.enable);
    assert_eq!(read.pac.url, "http://127.0.0.1:10000/pac");
    let off = query_gnome_settings(&gnome_outputs_after(&clear_gnome_proxy()));
    assert!(!off.pac.enable && !off.proxy.enable);
}

#[test]
fn set_proxy_fills_empty_fields_from_current() {
    let e = env("GNOME", None);
    let mut o = Options::default();
    o.bypass = "localhost".to_string();
    let mut cur = ProxyConfig::new();
    cur.proxy.servers.insert("http_server".to_string(), "1.2.3.4:80".to_string());
    cur.proxy.bypass = "ignored".to_string();
    let v = set_proxy(Some(&o), &e, Some(&cur)).unwrap();
    assert_eq!(args(&v[1]), vec!["set", "org.gnome.system.proxy.http", "host", "1.2.3.4"]);
    assert_eq!(args(&v[7]), vec!["set", "org.gnome.system.proxy", "ignore-hosts", "['localhost']"]);
}

#[test]
fn set_pac_uses_requested_url() {
    let e = env("KDE", None);
    let mut o = Options::default();
    o.pac_url = "http://x/pac".to_string();
    let v = set_pac(Some(&o), &e, None).unwrap();
    assert_eq!(v[1].args[6], "http://x/pac");
    let mut cur = ProxyConfig::new();
    cur.pac.url = "http://current/pac".to_string();
    let w = set_pac(None, &e, Some(&cur)).unwrap();
    assert_eq!(w[1].args[6], "http://current/pac");
}

#[test]
fn environ_splits_at_nul_and_skips_empty_items() {
    let data = b"HOME=/home/u\0\0DISPLAY=:0\0NOEQ\0HOME=/root\0".to_vec();
    let items = environ_items(&data);
    assert_eq!(items.len(), 4);
    assert_eq!(items[1], b"DISPLAY=:0".to_vec());
    let m = environ_to_map(&data);
    assert_eq!(m.get_or_empty("HOME"), "/root");
    assert_eq!(m.get_or_empty("DISPLAY"), ":0");
    assert!(!m.contains_key("NOEQ"));
    assert_eq!(environ_items(&b"A=1".to_vec()).len(), 1);
    assert!(environ_items(&Vec::new()).is_empty());
}
