use sysproxy::strmap::StrMap;
use sysproxy::text::{
    str_concat, decimal_string, join_strings, lines_of, replace_char_exec, split_char, starts_with,
    strip_prefix, to_string, trim_ws,
};
use sysproxy::types::{clean_output, format_server, parse_server_string, ProxyConfig};

#[test]
fn clean_output_strips_quotes_brackets_and_space() {
    assert_eq!(clean_output("'127.0.0.1'\n"), "127.0.0.1");
    assert_eq!(clean_output("['localhost', '127.0.0.0/8']"), "localhost', '127.0.0.0/8");
    assert_eq!(clean_output("\"manual\""), "manual");
    assert_eq!(clean_output("  \t x \t"), "x");
    assert_eq!(clean_output(""), "");
    assert_eq!(clean_output("''"), "");
}

#[test]
fn clean_output_strips_any_white_space_with_the_quotes() {
    assert_eq!(clean_output("\t'x'"), "x");
    assert_eq!(clean_output("'x'\r\n"), "x");
    assert_eq!(clean_output(" \u{3000}[\"x y\"]\u{A0}"), "x y");
}

#[test]
fn clean_output_is_idempotent_example() {
    let once = clean_output("\t['a']\r\n");
    assert_eq!(clean_output(&once), once);
}

#[test]
fn format_server_joins_cleaned_host_and_port() {
    assert_eq!(format_server("'127.0.0.1'", "7890"), "127.0.0.1:7890");
    assert_eq!(format_server("host", "'8080'\n"), "host:8080");
}

#[test]
fn format_server_is_empty_without_host_or_port() {
    assert_eq!(format_server("", "7890"), "");
    assert_eq!(format_server("''", "7890"), "");
    assert_eq!(format_server("127.0.0.1", ""), "");
    assert_eq!(format_server("127.0.0.1", "0"), "");
    assert_eq!(format_server("127.0.0.1", "'0'"), "");
}

#[test]
fn parse_server_string_splits_at_last_colon() {
    let a = parse_server_string("127.0.0.1:7890");
    assert_eq!(a.host, "127.0.0.1");
    assert_eq!(a.port, "7890");
    let b = parse_server_string("[::1]:8080");
    assert_eq!(b.host, "[::1]");
    assert_eq!(b.port, "8080");
    let c = parse_server_string("host:");
    assert_eq!(c.host, "host");
    assert_eq!(c.port, "");
}

#[test]
fn parse_server_string_without_colon_is_empty() {
    let a = parse_server_string("localhost");
    assert_eq!(a.host, "");
    assert_eq!(a.port, "");
    let b = parse_server_string("");
    assert_eq!(b.host, "");
    assert_eq!(b.port, "");
}

#[test]
fn law_split_formatted_server_example() {
    let s = format_server(" 'proxy.local' ", "'3128'");
    let a = parse_server_string(&s);
    assert_eq!(a.host, clean_output(" 'proxy.local' "));
    assert_eq!(a.port, clean_output("'3128'"));
}

#[test]
fn law_split_server_rejoins_example() {
    let s = "a:b:c";
    let a = parse_server_string(s);
    assert_eq!(format!("{}:{}", a.host, a.port), s);
}

#[test]
fn empty_config_is_all_off() {
    let c = ProxyConfig::default();
    assert!(!c.proxy.enable);
    assert!(!c.proxy.same_for_all);
    assert!(c.proxy.servers.to_pairs().is_empty());
    assert_eq!(c.proxy.bypass, "");
    assert!(!c.pac.enable);
    assert_eq!(c.pac.url, "");
}

#[test]
fn strmap_get_after_insert() {
    let mut m = StrMap::new();
    m.insert("k".to_string(), "v1".to_string());
    m.insert("j".to_string(), "w".to_string());
    m.insert("k".to_string(), "v2".to_string());
    assert_eq!(m.get("k"), Some("v2".to_string()));
    assert_eq!(m.get("j"), Some("w".to_string()));
    assert_eq!(m.get("x"), None);
    assert_eq!(m.get_or_empty("x"), "");
    assert!(m.contains_key("j"));
    assert_eq!(m.to_pairs().len(), 2);
}

#[test]
fn strmap_extend_prefers_the_other_map() {
    let mut a = StrMap::new();
    a.insert("PATH".to_string(), "/bin".to_string());
    a.insert("LANG".to_string(), "C".to_string());
    let mut b = StrMap::new();
    b.insert("LANG".to_string(), "zh_CN.UTF-8".to_string());
    a.extend(&b);
    assert_eq!(a.get_or_empty("PATH"), "/bin");
    assert_eq!(a.get_or_empty("LANG"), "zh_CN.UTF-8");
}

#[test]
fn text_helpers_match_std() {
    assert_eq!(trim_ws("\u{3000} a b \n"), "a b");
    assert_eq!(split_char("a,,b", ','), vec!["a", "", "b"]);
    assert_eq!(split_char("", ','), vec![""]);
    assert_eq!(join_strings(&vec!["a".to_string(), "b".to_string()], "','"), "a','b");
    assert_eq!(replace_char_exec("h 80", ' ', ':'), "h:80");
    assert_eq!(str_concat("ab", "cd"), "abcd");
    assert_eq!(to_string("x"), "x");
    assert!(starts_with("Enabled: Yes", "Enabled"));
    assert_eq!(strip_prefix("URL: x", "URL: "), Some("x".to_string()));
    assert_eq!(strip_prefix("x", "URL: "), None);
    assert_eq!(decimal_string(0), "0");
    assert_eq!(decimal_string(1000), "1000");
    assert_eq!(decimal_string(u32::MAX), u32::MAX.to_string());
}

#[test]
fn lines_match_str_lines() {
    for s in ["", "a", "a\n", "a\r\nb", "\n", "a\n\n", "a\r", "x\ny\r\n"] {
        let expected: Vec<String> = s.lines().map(|l| l.to_string()).collect();
        assert_eq!(lines_of(s), expected, "{:?}", s);
    }
}
