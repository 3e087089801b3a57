use sysproxy::error::ProxyError;
use sysproxy::options::Options;
use sysproxy::platform::windows::{
    all_connections, disable_proxy, disable_proxy_registry, get_target_connections,
    query_proxy_settings_registry, query_proxy_settings_wininet, query_source, registry_string, set_pac,
    set_pac_registry, set_proxy, set_proxy_registry, to_wide_null, use_registry_settings,
    validate_registry_target, ConnectionTarget, PerConnOption, QuerySource, RegistryOp, RegistryValues,
    WinInetValues, WindowsPlan, PROXY_TYPE_AUTO_PROXY_URL, PROXY_TYPE_DIRECT, PROXY_TYPE_PROXY,
};
use sysproxy::types::ProxyConfig;
use std::collections::HashMap;

fn registry_opts() -> Options {
    let mut o = Options::default();
    o.use_registry = true;
    o
}

#[test]
fn query_source_by_mode_and_device() {
    assert_eq!(query_source(None).unwrap(), QuerySource::WinInet);
    let mut o = registry_opts();
    assert_eq!(query_source(Some(&o)).unwrap(), QuerySource::Registry);
    o.device = "VPN".to_string();
    assert!(matches!(query_source(Some(&o)), Err(ProxyError::RegistryDeviceUnsupported)));
    o.use_registry = false;
    assert_eq!(query_source(Some(&o)).unwrap(), QuerySource::WinInet);
}

#[test]
fn registry_mode_and_device() {
    assert!(!use_registry_settings(None));
    let mut o = registry_opts();
    assert!(use_registry_settings(Some(&o)));
    assert!(validate_registry_target(Some(&o)).is_ok());
    o.device = "VPN".to_string();
    assert!(matches!(validate_registry_target(Some(&o)), Err(ProxyError::RegistryDeviceUnsupported)));
    assert!(matches!(disable_proxy(Some(&o)), Err(ProxyError::RegistryDeviceUnsupported)));
}

#[test]
fn connection_targets() {
    assert!(matches!(get_target_connections(None), ConnectionTarget::All));
    let mut o = Options::default();
    o.only_active_device = true;
    assert!(matches!(get_target_connections(Some(&o)), ConnectionTarget::DefaultOnly));
    o.device = "Dial".to_string();
    assert!(matches!(get_target_connections(Some(&o)), ConnectionTarget::Named(ref d) if d == "Dial"));
    let names = vec![
        "DefaultConnectionSettings".to_string(),
        "VPN".to_string(),
        "".to_string(),
        "SavedLegacySettings".to_string(),
        "Dial".to_string(),
    ];
    assert_eq!(all_connections(&names), vec!["VPN", "Dial", ""]);
}

/// The Internet Settings values after the writes, as the registry query reads them.
fn read_after(ops: &[RegistryOp]) -> RegistryValues {
    let mut dwords: HashMap<String, u32> = HashMap::new();
    let mut texts: HashMap<String, String> = HashMap::new();
    for op in ops {
        match op {
            RegistryOp::SetDword(n, v) => {
                dwords.insert(n.clone(), *v);
            }
            RegistryOp::SetString(n, v) => {
                texts.insert(n.clone(), v.clone());
            }
            RegistryOp::Delete(n) => {
                dwords.remove(n);
                texts.remove(n);
            }
        }
    }
    RegistryValues {
        proxy_enable: *dwords.get("ProxyEnable").unwrap_or(&0),
        proxy_server: texts.get("ProxyServer").cloned().unwrap_or_default(),
        proxy_override: texts.get("ProxyOverride").cloned().unwrap_or_default(),
        auto_config_url: texts.get("AutoConfigURL").cloned().unwrap_or_default(),
    }
}

#[test]
fn registry_writes() {
    let o = registry_opts();
    let d = disable_proxy_registry(Some(&o)).unwrap();
    assert!(matches!(&d[..], [RegistryOp::SetDword(a, 0), RegistryOp::SetDword(b, 0), RegistryOp::Delete(c)]
        if a == "ProxyEnable" && b == "AutoDetect" && c == "AutoConfigURL"));
    let mut p = registry_opts();
    p.proxy = "127.0.0.1:7890".to_string();
    p.bypass = "<local>".to_string();
    let w = set_proxy_registry(Some(&p), None).unwrap();
    assert_eq!(w.len(), 5);
    assert!(matches!(&w[1], RegistryOp::SetString(n, v) if n == "ProxyServer" && v == "127.0.0.1:7890"));
    let mut q = registry_opts();
    q.pac_url = "http://x/pac".to_string();
    let pac = set_pac_registry(Some(&q), None).unwrap();
    assert!(matches!(&pac[2], RegistryOp::SetString(n, v) if n == "AutoConfigURL" && v == "http://x/pac"));
    let mut cur = ProxyConfig::new();
    cur.pac.url = String::new();
    let none = set_pac_registry(Some(&registry_opts()), Some(&cur)).unwrap();
    assert_eq!(none.len(), 2);
}

#[test]
fn law_registry_reads_back_proxy_example() {
    let mut p = registry_opts();
    p.proxy = "10.1.1.1:8080".to_string();
    p.bypass = "<local>;*.corp".to_string();
    let c = query_proxy_settings_registry(&read_after(&set_proxy_registry(Some(&p), None).unwrap()));
    assert!(c.proxy.enable && !c.pac.enable);
    assert_eq!(c.proxy.servers.get_or_empty("http_server"), "10.1.1.1:8080");
    assert_eq!(c.proxy.bypass, "<local>;*.corp");
    assert_eq!(c.pac.url, "");
}

#[test]
fn law_registry_reads_back_pac_and_disabled_example() {
    let mut q = registry_opts();
    q.pac_url = "http://x/pac".to_string();
    let c = query_proxy_settings_registry(&read_after(&set_pac_registry(Some(&q), None).unwrap()));
    assert!(c.pac.enable && !c.proxy.enable);
    assert_eq!(c.pac.url, "http://x/pac");
    let off = query_proxy_settings_registry(&read_after(&disable_proxy_registry(Some(&q)).unwrap()));
    assert!(!off.pac.enable && !off.proxy.enable);
}

#[test]
fn registry_query() {
    let c = query_proxy_settings_registry(&RegistryValues {
        proxy_enable: 1,
        proxy_server: "h:1".to_string(),
        proxy_override: "a;b".to_string(),
        auto_config_url: String::new(),
    });
    assert!(c.proxy.enable && !c.pac.enable);
    assert_eq!(registry_string("abc\0\0"), "abc");
    assert_eq!(registry_string("a\0b"), "a\0b");
}

#[test]
fn wininet_plans() {
    match disable_proxy(None).unwrap() {
        WindowsPlan::WinInet(v) => assert!(matches!(&v[..], [PerConnOption::Flags(PROXY_TYPE_DIRECT)])),
        other => panic!("{:?}", other),
    }
    let mut o = Options::default();
    o.proxy = "p:1".to_string();
    o.bypass = "b".to_string();
    match set_proxy(Some(&o), None).unwrap() {
        WindowsPlan::WinInet(v) => assert!(matches!(&v[..],
            [PerConnOption::Flags(PROXY_TYPE_PROXY), PerConnOption::ProxyServer(s), PerConnOption::ProxyBypass(b)]
            if s == "p:1" && b == "b")),
        other => panic!("{:?}", other),
    }
    match set_pac(None, None).unwrap() {
        WindowsPlan::WinInet(v) => assert!(matches!(&v[..], [PerConnOption::Flags(PROXY_TYPE_AUTO_PROXY_URL)])),
        other => panic!("{:?}", other),
    }
    let mut q = Options::default();
    q.pac_url = "http://x".to_string();
    match set_pac(Some(&q), None).unwrap() {
        WindowsPlan::WinInet(v) => assert_eq!(v.len(), 2),
        other => panic!("{:?}", other),
    }
    let mut r = registry_opts();
    r.proxy = "p:1".to_string();
    r.bypass = "b".to_string();
    assert!(matches!(set_proxy(Some(&r), None).unwrap(), WindowsPlan::Registry(_)));
}

#[test]
fn wininet_query_flags() {
    let c = query_proxy_settings_wininet(&WinInetValues {
        flags: PROXY_TYPE_DIRECT | PROXY_TYPE_PROXY,
        proxy_server: "h:1".to_string(),
        proxy_bypass: "<local>".to_string(),
        auto_config_url: String::new(),
    });
    assert!(c.proxy.enable && !c.pac.enable);
    assert_eq!(c.proxy.servers.get_or_empty("http_server"), "h:1");
    let p = query_proxy_settings_wininet(&WinInetValues {
        flags: PROXY_TYPE_AUTO_PROXY_URL,
        proxy_server: String::new(),
        proxy_bypass: String::new(),
        auto_config_url: "http://x".to_string(),
    });
    assert!(p.pac.enable && !p.proxy.enable);
}

#[test]
fn wide_strings_match_encode_utf16() {
    for s in ["", "abc", "代理", "😀x", "\u{FFFF}\u{10000}"] {
        let mut expected: Vec<u16> = s.encode_utf16().collect();
        expected.push(0);
        assert_eq!(to_wide_null(s), expected, "{:?}", s);
    }
}
