use sysproxy::bindings::{servers_json, to_js_config, to_options, JsOptions};
use sysproxy::strmap::StrMap;
use sysproxy::types::ProxyConfig;

#[test]
fn js_options_default_left_out_fields() {
    let o = to_options(None);
    assert_eq!(o.proxy, "");
    assert!(o.concurrent.is_none());
    let j = JsOptions {
        proxy: Some("127.0.0.1:7890".to_string()),
        bypass: None,
        pac_url: Some("http://x/pac".to_string()),
        device: None,
        only_active_device: Some(true),
        concurrent: Some(false),
        use_registry: None,
    };
    let o = to_options(Some(j));
    assert_eq!(o.proxy, "127.0.0.1:7890");
    assert_eq!(o.bypass, "");
    assert_eq!(o.pac_url, "http://x/pac");
    assert!(o.only_active_device);
    assert_eq!(o.concurrent, Some(false));
    assert!(!o.use_registry);
    assert!(o.environment.is_empty());
}

#[test]
fn servers_are_a_json_object() {
    let mut m = StrMap::new();
    m.insert("socks_server".to_string(), "127.0.0.1:7890".to_string());
    m.insert("http_server".to_string(), "127.0.0.1:7890".to_string());
    let text = servers_json(&m);
    assert_eq!(text, r#"{"http_server":"127.0.0.1:7890","socks_server":"127.0.0.1:7890"}"#);
    let back: std::collections::HashMap<String, String> = serde_json::from_str(&text).unwrap();
    assert_eq!(back.get("http_server").map(String::as_str), Some("127.0.0.1:7890"));
    assert_eq!(servers_json(&StrMap::new()), "{}");
}

#[test]
fn js_config_carries_settings() {
    let mut c = ProxyConfig::new();
    c.proxy.enable = true;
    c.proxy.bypass = "localhost".to_string();
    c.proxy.servers.insert("http_server".to_string(), "h:1".to_string());
    c.pac.url = "u".to_string();
    let j = to_js_config(c);
    assert!(j.proxy.enable && !j.proxy.same_for_all && !j.pac.enable);
    assert_eq!(j.proxy.servers, r#"{"http_server":"h:1"}"#);
    assert_eq!(j.proxy.bypass, "localhost");
    assert_eq!(j.pac.url, "u");
}
