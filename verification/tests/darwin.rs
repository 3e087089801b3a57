use sysproxy::error::ProxyError;
use sysproxy::options::Options;
use sysproxy::platform::darwin::{
    disable_proxy, get_active_interface_names, get_network_services, get_query_services,
    get_target_services, networksetup_args, parse_proxy_output, query_proxy_settings,
    regex_device, regex_ordinal, set_pac, set_proxy, InterfaceState, ServiceTarget,
};
use sysproxy::platform::ToolOutput;
use sysproxy::types::ProxyConfig;

fn out(success: bool, stdout: &str) -> ToolOutput {
    ToolOutput { success, stdout: stdout.to_string(), stderr: String::new() }
}

const SERVICE_ORDER: &str = "An asterisk (*) denotes that a network service is disabled.\n\
(1) Wi-Fi\n\
(Hardware Port: Wi-Fi, Device: en0)\n\
\n\
(2) Thunderbolt Bridge\n\
(Hardware Port: Thunderbolt Bridge, Device: bridge0)\n\
\n\
(*) USB LAN\n\
(Hardware Port: USB LAN, Device: en5)\n\
(3) VPN\n";

#[test]
fn ordinal_and_device_lines() {
    assert_eq!(regex_ordinal().captures("  (12) My Service  "), Some("My Service".to_string()));
    assert_eq!(regex_ordinal().captures("() Bare"), None);
    assert_eq!(regex_ordinal().captures("(7)Tight"), Some("Tight".to_string()));
    assert_eq!(regex_ordinal().captures("(*) Disabled"), None);
    assert_eq!(regex_ordinal().captures("(1 Open"), None);
    assert!(!regex_ordinal().is_match("Wi-Fi"));
    assert_eq!(regex_device().captures("(Hardware Port: Wi-Fi, Device: en0)"), Some("en0".to_string()));
    assert_eq!(regex_device().captures("Device: en7"), Some("en7".to_string()));
    assert_eq!(regex_device().captures("(Hardware Port: VPN, Device: )"), Some("".to_string()));
    assert!(!regex_device().is_match("(1) Wi-Fi"));
}

#[test]
fn network_services_all_and_active() {
    let o = out(true, SERVICE_ORDER);
    let all = get_network_services(&o, false, &vec![]).unwrap();
    assert_eq!(all, vec!["Wi-Fi", "Thunderbolt Bridge", "VPN"]);
    let active = get_network_services(&o, true, &vec!["en0".to_string()]).unwrap();
    assert_eq!(active, vec!["Wi-Fi"]);
    // a service without a device line has the empty device
    let vpn = get_network_services(&o, true, &vec!["".to_string()]).unwrap();
    assert_eq!(vpn, vec!["VPN"]);
}

#[test]
fn network_services_errors() {
    let empty = ToolOutput { success: true, stdout: String::new(), stderr: String::new() };
    assert!(matches!(get_network_services(&empty, false, &vec![]), Err(ProxyError::EmptyToolOutput)));
    let failed = ToolOutput { success: false, stdout: String::new(), stderr: "boom".to_string() };
    match get_network_services(&failed, false, &vec![]) {
        Err(ProxyError::ToolFailed(m)) => assert_eq!(m, "boom"),
        other => panic!("{:?}", other),
    }
    let none = out(true, SERVICE_ORDER);
    assert!(matches!(get_network_services(&none, true, &vec!["en9".to_string()]), Err(ProxyError::NoNetworkServices)));
}

#[test]
fn proxy_report_parse() {
    let text = "Enabled: Yes\nServer: 127.0.0.1 \nPort: 7890\nAuthenticated Proxy Enabled: 0\n";
    assert_eq!(parse_proxy_output(&out(true, text)), Some(("127.0.0.1".to_string(), "7890".to_string())));
    assert_eq!(parse_proxy_output(&out(true, "Enabled: No\nServer: x\nPort: 1\n")), None);
    assert_eq!(parse_proxy_output(&out(false, text)), None);
}

#[test]
fn query_assembles_reports() {
    let pac = out(true, "URL: http://127.0.0.1:10000/pac \nEnabled: Yes\n");
    let web = out(true, "Enabled: Yes\nServer: 127.0.0.1\nPort: 7890\n");
    let secure = out(true, "Enabled: Yes\nServer: \nPort: 0\n");
    let socks = out(true, "Enabled: No\nServer: \nPort: 0\n");
    let bypass = out(true, "localhost\n*.local\n");
    let c = query_proxy_settings(&pac, &web, &secure, &socks, &bypass);
    assert!(c.pac.enable);
    assert_eq!(c.pac.url, "http://127.0.0.1:10000/pac");
    assert!(c.proxy.enable);
    assert_eq!(c.proxy.servers.get("http_server"), Some("127.0.0.1:7890".to_string()));
    assert_eq!(c.proxy.servers.get("https_server"), None);
    assert_eq!(c.proxy.servers.get("socks_server"), None);
    assert_eq!(c.proxy.bypass, "localhost,*.local");
    let off = query_proxy_settings(&out(true, "URL: (null)\nEnabled: No\n"), &out(false, ""), &out(false, ""), &out(false, ""), &out(false, "x"));
    assert!(!off.pac.enable && !off.proxy.enable);
    assert_eq!(off.pac.url, "");
    assert_eq!(off.proxy.bypass, "");
}

#[test]
fn active_interfaces_deduplicated() {
    let i = |n: &str, up, running, addr| InterfaceState { name: n.to_string(), up, running, has_address: addr };
    let v = vec![i("en0", true, true, true), i("en0", true, true, true), i("lo0", true, false, true), i("en1", true, true, false), i("en2", true, true, true)];
    assert_eq!(get_active_interface_names(&v), vec!["en0", "en2"]);
}

#[test]
fn service_targets() {
    let mut o = Options::default();
    assert!(matches!(get_target_services(None), ServiceTarget::Listed(false)));
    assert!(matches!(get_query_services(None), ServiceTarget::ActiveThenAll));
    o.only_active_device = true;
    assert!(matches!(get_target_services(Some(&o)), ServiceTarget::Listed(true)));
    assert!(matches!(get_query_services(Some(&o)), ServiceTarget::Listed(true)));
    o.device = "Wi-Fi".to_string();
    match get_target_services(Some(&o)) {
        ServiceTarget::Device(d) => assert_eq!(d, "Wi-Fi"),
        other => panic!("{:?}", other),
    }
}

#[test]
fn commands_for_disable_proxy_and_pac() {
    let d = disable_proxy();
    assert_eq!(d.len(), 5);
    assert_eq!(d[0], vec!["-setautoproxystate", "off"]);
    let mut o = Options::default();
    o.proxy = "127.0.0.1:7890".to_string();
    o.bypass = "localhost,127.0.0.1".to_string();
    let p = set_proxy(Some(&o), None).unwrap();
    assert_eq!(p[2], vec!["-setwebproxy", "127.0.0.1", "7890"]);
    assert_eq!(p[5], vec!["-setproxybypassdomains", "localhost", "127.0.0.1"]);
    assert_eq!(networksetup_args("Wi-Fi", &p[2]), vec!["-setwebproxy", "Wi-Fi", "127.0.0.1", "7890"]);
    let mut q = Options::default();
    q.pac_url = "http://x/pac".to_string();
    let pac = set_pac(Some(&q), None);
    assert_eq!(pac[3], vec!["-setautoproxyurl", "http://x/pac"]);
    assert_eq!(pac[4], vec!["-setautoproxystate", "on"]);
}

#[test]
fn set_proxy_rejects_address_without_port() {
    let mut o = Options::default();
    o.proxy = "127.0.0.1".to_string();
    o.bypass = "x".to_string();
    match set_proxy(Some(&o), None) {
        Err(ProxyError::InvalidProxyAddress(p)) => assert_eq!(p, "127.0.0.1"),
        other => panic!("{:?}", other),
    }
    let mut cur = ProxyConfig::new();
    cur.proxy.bypass = "b".to_string();
    assert!(matches!(set_proxy(None, Some(&cur)), Err(ProxyError::InvalidProxyAddress(_))));
}

/// What `networksetup` keeps for one service: web, secure web and SOCKS proxies as
/// (on, server, port), the automatic proxy as (on, URL), and the bypass domains.
struct Service {
    proxies: [(bool, String, String); 3],
    auto: (bool, String),
    bypass: Vec<String>,
}

impl Service {
    fn new() -> Service {
        let off = (false, String::new(), String::new());
        Service { proxies: [off.clone(), off.clone(), off], auto: (false, String::new()), bypass: Vec::new() }
    }

    fn run(&mut self, cmds: &[Vec<String>]) {
        for a in cmds {
            let kinds = ["-setwebproxy", "-setsecurewebproxy", "-setsocksfirewallproxy"];
            if let Some(i) = kinds.iter().position(|k| *k == a[0]) {
                if a.len() == 3 {
                    self.proxies[i] = (true, a[1].clone(), a[2].clone());
                }
            } else if let Some(i) = kinds.iter().position(|k| format!("{}state", k) == a[0]) {
                self.proxies[i].0 = a[1] == "on";
            } else if a[0] == "-setautoproxystate" {
                self.auto.0 = a[1] == "on";
            } else if a[0] == "-setautoproxyurl" {
                self.auto = (true, a[1].clone());
            } else if a[0] == "-setproxybypassdomains" {
                self.bypass = a[1..].to_vec();
            }
        }
    }

    fn proxy_report(&self, i: usize) -> ToolOutput {
        let (on, server, port) = &self.proxies[i];
        let yes = if *on { "Yes" } else { "No" };
        out(true, &format!("Enabled: {}\nServer: {}\nPort: {}\nAuthenticated Proxy Enabled: 0\n", yes, server, port))
    }

    fn auto_report(&self) -> ToolOutput {
        let url = if self.auto.1.is_empty() { "(null)" } else { self.auto.1.as_str() };
        let yes = if self.auto.0 { "Yes" } else { "No" };
        out(true, &format!("URL: {}\nEnabled: {}\n", url, yes))
    }

    fn bypass_report(&self) -> ToolOutput {
        if self.bypass.is_empty() {
            out(true, "There aren't any bypass domains set on Wi-Fi.\n")
        } else {
            out(true, &self.bypass.iter().map(|d| format!("{}\n", d)).collect::<String>())
        }
    }

    fn query(&self) -> ProxyConfig {
        query_proxy_settings(
            &self.auto_report(),
            &self.proxy_report(0),
            &self.proxy_report(1),
            &self.proxy_report(2),
            &self.bypass_report(),
        )
    }
}

#[test]
fn law_networksetup_reads_back_proxy_example() {
    let mut s = Service::new();
    s.run(&set_pac(None, Some(&{
        let mut c = ProxyConfig::new();
        c.pac.url = "http://old/pac".to_string();
        c
    })));
    let mut o = Options::default();
    o.proxy = "127.0.0.1:7890".to_string();
    o.bypass = "localhost,127.0.0.1,*.local".to_string();
    s.run(&set_proxy(Some(&o), None).unwrap());
    let read = s.query();
    assert!(read.proxy.enable && !read.pac.enable);
    for k in ["http_server", "https_server", "socks_server"] {
        assert_eq!(read.proxy.servers.get_or_empty(k), "127.0.0.1:7890");
    }
    assert_eq!(read.proxy.bypass, "localhost,127.0.0.1,*.local");
}

#[test]
fn law_networksetup_reads_back_pac_and_disabled_example() {
    let mut s = Service::new();
    let mut o = Options::default();
    o.proxy = "10.1.1.1:80".to_string();
    s.run(&set_proxy(Some(&o), None).unwrap());
    let mut q = Options::default();
    q.pac_url = "http://127.0.0.1:10000/pac".to_string();
    s.run(&set_pac(Some(&q), None));
    let read = s.query();
    assert!(read.pac.enable && !read.proxy.enable);
    assert_eq!(read.pac.url, "http://127.0.0.1:10000/pac");
    s.run(&disable_proxy());
    let off = s.query();
    assert!(!off.pac.enable && !off.proxy.enable);
}
