//! macOS: network services through `networksetup`.
use vstd::prelude::*;

use crate::error::ProxyError;
use crate::options::{opt_device, pac_request_wants_query, proxy_request_wants_query, resolve_pac_request, resolve_proxy_request, Options};
use crate::platform::linux::{pac_request, proxy_request};
use crate::platform::{arg_lists, contains_string, ToolOutput};
use crate::strmap::StrMap;
use crate::text::{
    chars_of, contains, contains_str, find_str, find_where, first_index, first_index_where,
    first_occurrence, has_prefix, lemma_first_index_where, lemma_first_occurrence, lines,
    lines_of, replace_char, replace_char_exec, split, split_char, starts_with, string_of_range,
    string_views, strip_prefix, to_string, trim, trim_ws, CharTest, CharClass, clean, decimal, join, lemma_clean_fixed, lemma_join_split, lemma_line_text_join,
    lemma_replace_join, lemma_split_nonempty, lemma_split_pieces, lemma_trim_fixed, strip_lead, strip_trail,
    lemma_clean_plain, lemma_decimal_digits, lemma_lines_of_line_text, lemma_single_line_concat, line_text, occurs_at, single_line,
};
use crate::types::{format_server, law_split_formatted_server, lemma_server_keys, parse_server_string, server_text, split_server, ConfigView, PacInfo, ProxyConfig, ProxyInfo};

verus! {

// ───────────────────────────── reading `networksetup` output ─────────────────────────────

/// Enabled flag, server and port read from the lines of a `-get*proxy` report; a
/// later line wins over an earlier one.
pub open spec fn scan_proxy_lines(ls: Seq<Seq<char>>) -> (bool, Seq<char>, Seq<char>)
    decreases ls.len(),
{
    if ls.len() == 0 {
        (false, Seq::empty(), Seq::empty())
    } else {
        let (e, h, p) = scan_proxy_lines(ls.drop_last());
        let l = ls.last();
        if has_prefix(l, "Enabled: Yes"@) {
            (true, h, p)
        } else if has_prefix(l, "Server: "@) {
            (e, trim(l.skip("Server: "@.len() as int)), p)
        } else if has_prefix(l, "Port: "@) {
            (e, h, trim(l.skip("Port: "@.len() as int)))
        } else {
            (e, h, p)
        }
    }
}

/// Host and port of an enabled proxy that a `-get*proxy` report shows; none where
/// the tool failed or the proxy is off.
pub open spec fn proxy_report(success: bool, text: Seq<char>) -> Option<(Seq<char>, Seq<char>)> {
    let (e, h, p) = scan_proxy_lines(lines(text));
    if success && e {
        Some((h, p))
    } else {
        None
    }
}

/// Host and port of the enabled proxy that a `-get*proxy` report shows.
pub fn parse_proxy_output(output: &ToolOutput) -> (r: Option<(String, String)>)
    ensures
        match r {
            Some((h, p)) => proxy_report(output.success, output.stdout@) == Some((h@, p@)),
            None => proxy_report(output.success, output.stdout@) is None,
        },
{
    if !output.success {
        return None;
    }
    let ls = lines_of(output.stdout.as_str());
    let ghost lv = string_views(ls@);
    let mut enabled = false;
    let mut host = String::new();
    let mut port = String::new();
    let mut i: usize = 0;
    assert(lv.take(0) =~= Seq::<Seq<char>>::empty());
    while i < ls.len()
        invariant
            i <= ls.len(),
            lv == string_views(ls@),
            lv == lines(output.stdout@),
            scan_proxy_lines(lv.take(i as int)) == (enabled, host@, port@),
        decreases ls.len() - i,
    {
        assert(lv.take(i + 1).drop_last() =~= lv.take(i as int));
        let line = ls[i].as_str();
        if starts_with(line, "Enabled: Yes") {
            enabled = true;
        } else if let Some(h) = strip_prefix(line, "Server: ") {
            host = trim_ws(h.as_str());
        } else if let Some(p) = strip_prefix(line, "Port: ") {
            port = trim_ws(p.as_str());
        }
        i = i + 1;
    }
    assert(lv.take(ls.len() as int) =~= lv);
    if enabled {
        Some((host, port))
    } else {
        None
    }
}

/// The URL that the first `URL: ` line of a report gives, trimmed; empty where
/// there is none.
pub open spec fn first_url_line(ls: Seq<Seq<char>>) -> Seq<char>
    decreases ls.len(),
{
    if ls.len() == 0 {
        Seq::empty()
    } else if has_prefix(ls[0], "URL: "@) {
        trim(ls[0].skip("URL: "@.len() as int))
    } else {
        first_url_line(ls.drop_first())
    }
}

/// Enabled flag and URL of the automatic proxy that a `-getautoproxyurl` report shows.
pub open spec fn pac_report(success: bool, text: Seq<char>) -> (bool, Seq<char>) {
    if success && contains(text, "Enabled: Yes"@) {
        (true, first_url_line(lines(text)))
    } else {
        (false, Seq::empty())
    }
}

fn parse_pac_output(output: &ToolOutput) -> (r: (bool, String))
    ensures
        (r.0, r.1@) == pac_report(output.success, output.stdout@),
{
    if output.success && contains_str(output.stdout.as_str(), "Enabled: Yes") {
        let ls = lines_of(output.stdout.as_str());
        let ghost lv = string_views(ls@);
        assert(lv == lines(output.stdout@));
        let mut i: usize = 0;
        assert(lv.skip(0) =~= lv);
        while i < ls.len()
            invariant
                i <= ls.len(),
                lv == string_views(ls@),
                lv == lines(output.stdout@),
                output.success && contains(output.stdout@, "Enabled: Yes"@),
                first_url_line(lv) == first_url_line(lv.skip(i as int)),
            decreases ls.len() - i,
        {
            assert(lv.skip(i as int)[0] == lv[i as int]);
            assert(lv.skip(i as int).len() > 0);
            assert(lv[i as int] == ls@[i as int]@);
            if let Some(u) = strip_prefix(ls[i].as_str(), "URL: ") {
                return (true, trim_ws(u.as_str()));
            }
            assert(lv.skip(i as int).drop_first() =~= lv.skip(i + 1));
            i = i + 1;
        }
        assert(lv.skip(i as int) =~= Seq::<Seq<char>>::empty());
        (true, String::new())
    } else {
        (false, String::new())
    }
}

/// The bypass list that a `-getproxybypassdomains` report shows: one domain per
/// line, joined by commas; empty where the tool failed.
pub open spec fn bypass_report(success: bool, text: Seq<char>) -> Seq<char> {
    if success {
        replace_char(trim(text), '\n', ',')
    } else {
        Seq::empty()
    }
}

/// `m` with `v` stored under `k` where `v` is not empty.
pub open spec fn insert_nonempty(m: Map<Seq<char>, Seq<char>>, k: Seq<char>, v: Seq<char>) -> Map<
    Seq<char>,
    Seq<char>,
> {
    if v.len() > 0 {
        m.insert(k, v)
    } else {
        m
    }
}

/// The server text of a report, where the report shows an enabled proxy.
pub open spec fn report_server(r: Option<(Seq<char>, Seq<char>)>) -> Seq<char> {
    match r {
        Some((h, p)) => server_text(h, p),
        None => Seq::empty(),
    }
}

/// The configuration that the five `networksetup` reports of a query show.
pub open spec fn darwin_config(
    pac: (bool, Seq<char>),
    web: (bool, Seq<char>),
    secure: (bool, Seq<char>),
    socks: (bool, Seq<char>),
    bypass: (bool, Seq<char>),
) -> ConfigView {
    let w = proxy_report(web.0, web.1);
    let s = proxy_report(secure.0, secure.1);
    let k = proxy_report(socks.0, socks.1);
    let p = pac_report(pac.0, pac.1);
    ConfigView {
        proxy_enable: w is Some || s is Some || k is Some,
        same_for_all: false,
        servers: insert_nonempty(
            insert_nonempty(
                insert_nonempty(Map::empty(), "http_server"@, report_server(w)),
                "https_server"@,
                report_server(s),
            ),
            "socks_server"@,
            report_server(k),
        ),
        bypass: bypass_report(bypass.0, bypass.1),
        pac_enable: p.0,
        pac_url: p.1,
    }
}

fn add_server(servers: &mut StrMap, key: &str, report: &Option<(String, String)>) -> (r: bool)
    ensures
        r == report is Some,
        final(servers)@ == insert_nonempty(
            old(servers)@,
            key@,
            match report {
                Some((h, p)) => server_text(h@, p@),
                None => Seq::empty(),
            },
        ),
{
    match report {
        Some((h, p)) => {
            let addr = format_server(h.as_str(), p.as_str());
            if addr.unicode_len() > 0 {
                servers.insert(to_string(key), addr);
            }
            true
        },
        None => false,
    }
}

/// The configuration that the reports of `-getautoproxyurl`, `-getwebproxy`,
/// `-getsecurewebproxy`, `-getsocksfirewallproxy` and `-getproxybypassdomains` show.
pub fn query_proxy_settings(
    pac: &ToolOutput,
    web: &ToolOutput,
    secure: &ToolOutput,
    socks: &ToolOutput,
    bypass: &ToolOutput,
) -> (r: ProxyConfig)
    ensures
        r@ == darwin_config(
            (pac.success, pac.stdout@),
            (web.success, web.stdout@),
            (secure.success, secure.stdout@),
            (socks.success, socks.stdout@),
            (bypass.success, bypass.stdout@),
        ),
        r.proxy.enable == (proxy_report(web.success, web.stdout@) is Some || proxy_report(
            secure.success,
            secure.stdout@,
        ) is Some || proxy_report(socks.success, socks.stdout@) is Some),
{
    let (pac_enable, pac_url) = parse_pac_output(pac);
    let mut servers = StrMap::new();
    let w = parse_proxy_output(web);
    let s = parse_proxy_output(secure);
    let k = parse_proxy_output(socks);
    let a = add_server(&mut servers, "http_server", &w);
    let b = add_server(&mut servers, "https_server", &s);
    let c = add_server(&mut servers, "socks_server", &k);
    let by = if bypass.success {
        let t = trim_ws(bypass.stdout.as_str());
        replace_char_exec(t.as_str(), '\n', ',')
    } else {
        String::new()
    };
    let r = ProxyConfig {
        proxy: ProxyInfo { enable: a || b || c, same_for_all: false, servers, bypass: by },
        pac: PacInfo { enable: pac_enable, url: pac_url },
    };
    r
}

// ───────────────────────────── network services ─────────────────────────────

/// All characters of `s` are ASCII digits.
pub open spec fn all_digits(s: Seq<char>) -> bool {
    forall|i: int| 0 <= i < s.len() ==> '0' <= #[trigger] s[i] && s[i] <= '9'
}

/// The service name of a `(N) Service Name` line of `-listnetworkserviceorder`,
/// where `N` is one or more digits.
pub open spec fn ordinal_capture(line: Seq<char>) -> Option<Seq<char>> {
    let t = trim(line);
    if t.len() > 0 && t[0] == '(' {
        match first_index(t, ')') {
            Some(end) => if end > 1 && all_digits(t.subrange(1, end)) {
                Some(trim(t.skip(end + 1)))
            } else {
                None
            },
            None => None,
        }
    } else {
        None
    }
}

/// The device of a `(Hardware Port: …, Device: en0)` line.
pub open spec fn device_capture(line: Seq<char>) -> Option<Seq<char>> {
    match first_occurrence(line, "Device: "@) {
        Some(pos) => {
            let rest = line.skip(pos + "Device: "@.len());
            let end = match first_index_where(rest, CharTest::Either(',', ')')) {
                Some(e) => e,
                None => rest.len() as int,
            };
            Some(trim(rest.take(end)))
        },
        None => None,
    }
}

/// The two line shapes of `-listnetworkserviceorder`.
#[derive(Clone, Copy, PartialEq, Eq, Structural)]
pub enum SimpleRegex {
    /// `(N) Service Name`
    Ordinal,
    /// `(Hardware Port: …, Device: en0)`
    Device,
}

pub open spec fn regex_capture(re: SimpleRegex, line: Seq<char>) -> Option<Seq<char>> {
    match re {
        SimpleRegex::Ordinal => ordinal_capture(line),
        SimpleRegex::Device => device_capture(line),
    }
}

/// The shape of a service line.
pub fn regex_ordinal() -> (r: SimpleRegex)
    ensures
        r == SimpleRegex::Ordinal,
{
    SimpleRegex::Ordinal
}

/// The shape of a device line.
pub fn regex_device() -> (r: SimpleRegex)
    ensures
        r == SimpleRegex::Device,
{
    SimpleRegex::Device
}

fn all_digits_exec(v: &Vec<char>, from: usize, to: usize) -> (r: bool)
    requires
        from <= to <= v.len(),
    ensures
        r == all_digits(v@.subrange(from as int, to as int)),
{
    let mut i = from;
    while i < to
        invariant
            from <= i <= to <= v.len(),
            forall|k: int| from <= k < i ==> '0' <= #[trigger] v@[k] && v@[k] <= '9',
        decreases to - i,
    {
        if !('0' <= v[i] && v[i] <= '9') {
            assert(v@.subrange(from as int, to as int)[i - from] == v@[i as int]);
            return false;
        }
        i = i + 1;
    }
    assert forall|k: int| 0 <= k < to - from implies '0' <= #[trigger] v@.subrange(from as int, to as int)[k]
        && v@.subrange(from as int, to as int)[k] <= '9' by {
        assert(v@.subrange(from as int, to as int)[k] == v@[from + k]);
    }
    true
}

impl SimpleRegex {
    /// The text that the line's shape captures: the service name or the device.
    pub fn captures(&self, line: &str) -> (r: Option<String>)
        ensures
            match r {
                Some(c) => regex_capture(*self, line@) == Some(c@),
                None => regex_capture(*self, line@) is None,
            },
    {
        match self {
            SimpleRegex::Ordinal => {
                let t = trim_ws(line);
                let v = chars_of(t.as_str());
                if v.len() > 0 && v[0] == '(' {
                    match crate::text::find_char(&v, ')') {
                        Some(end) => {
                            proof {
                                lemma_first_index_where(v@, CharTest::Is(')'));
                            }
                            if end > 1 && all_digits_exec(&v, 1, end) {
                                let rest = string_of_range(&v, end + 1, v.len());
                                assert(v@.subrange(end + 1, v@.len() as int) =~= v@.skip(end + 1));
                                Some(trim_ws(rest.as_str()))
                            } else {
                                None
                            }
                        },
                        None => None,
                    }
                } else {
                    None
                }
            },
            SimpleRegex::Device => {
                let v = chars_of(line);
                let pat = chars_of("Device: ");
                match find_str(&v, &pat) {
                    Some(pos) => {
                        proof {
                            lemma_first_occurrence(v@, pat@);
                            assert(crate::text::occurs_at(v@, pat@, pos as int));
                            assert(pos + pat@.len() <= v@.len());
                        }
                        let rest_s = string_of_range(&v, pos + pat.len(), v.len());
                        let rest = chars_of(rest_s.as_str());
                        assert(rest@ =~= v@.skip(pos + pat@.len()));
                        let end = match find_where(&rest, CharTest::Either(',', ')')) {
                            Some(e) => {
                                proof {
                                    lemma_first_index_where(rest@, CharTest::Either(',', ')'));
                                }
                                e
                            },
                            None => rest.len(),
                        };
                        let dev = string_of_range(&rest, 0, end);
                        assert(rest@.subrange(0, end as int) =~= rest@.take(end as int));
                        Some(trim_ws(dev.as_str()))
                    },
                    None => None,
                }
            },
        }
    }

    /// Whether the line has the shape.
    pub fn is_match(&self, line: &str) -> (r: bool)
        ensures
            r == regex_capture(*self, line@) is Some,
    {
        self.captures(line).is_some()
    }
}

/// The services that the lines of `-listnetworkserviceorder` list, in order: all of
/// them, or where `only_active`, those whose device is among `active`.
pub open spec fn services_from_lines(
    ls: Seq<Seq<char>>,
    only_active: bool,
    active: Seq<Seq<char>>,
) -> Seq<Seq<char>>
    decreases ls.len(),
{
    if ls.len() == 0 {
        Seq::empty()
    } else {
        match ordinal_capture(ls[0]) {
            None => services_from_lines(ls.drop_first(), only_active, active),
            Some(svc) => {
                let next = if ls.len() > 1 {
                    device_capture(ls[1])
                } else {
                    None
                };
                let device = match next {
                    Some(d) => trim(d),
                    None => Seq::empty(),
                };
                let rest = if next is Some {
                    ls.skip(2)
                } else {
                    ls.drop_first()
                };
                let keep = !only_active || active.contains(device);
                (if keep {
                    seq![trim(svc)]
                } else {
                    Seq::empty()
                }) + services_from_lines(rest, only_active, active)
            },
        }
    }
}

/// The outcome of listing the network services.
pub open spec fn services_result_ok(
    output: &ToolOutput,
    only_active: bool,
    active: Seq<Seq<char>>,
    r: Result<Vec<String>, ProxyError>,
) -> bool {
    let listed = services_from_lines(lines(output.stdout@), only_active, active);
    if output.stdout@.len() == 0 && output.stderr@.len() == 0 {
        r matches Err(e) && e is EmptyToolOutput
    } else if !output.success {
        r matches Err(ProxyError::ToolFailed(msg)) && msg@ == output.stderr@
    } else if listed.len() == 0 {
        r matches Err(e) && e is NoNetworkServices
    } else {
        r matches Ok(v) && string_views(v@) == listed
    }
}

/// The network services that the output of `-listnetworkserviceorder` lists: all,
/// or where `only_active`, those on one of the `active` interfaces.
pub fn get_network_services(output: &ToolOutput, only_active: bool, active: &Vec<String>) -> (r:
    Result<Vec<String>, ProxyError>)
    ensures
        services_result_ok(output, only_active, string_views(active@), r),
{
    if output.stdout.unicode_len() == 0 && output.stderr.unicode_len() == 0 {
        return Err(ProxyError::EmptyToolOutput);
    }
    if !output.success {
        return Err(ProxyError::ToolFailed(output.stderr.clone()));
    }
    let ls = lines_of(output.stdout.as_str());
    let ghost lv = string_views(ls@);
    let ghost av = string_views(active@);
    let ordinal_re = regex_ordinal();
    let device_re = regex_device();
    let mut services: Vec<String> = Vec::new();
    let mut i: usize = 0;
    assert(lv.skip(0) =~= lv);
    while i < ls.len()
        invariant
            i <= ls.len(),
            lv == string_views(ls@),
            av == string_views(active@),
            ordinal_re == SimpleRegex::Ordinal,
            device_re == SimpleRegex::Device,
            services_from_lines(lv, only_active, av) == string_views(services@)
                + services_from_lines(lv.skip(i as int), only_active, av),
        decreases ls.len() - i,
    {
        let ghost rest = lv.skip(i as int);
        assert(rest.len() == ls.len() - i);
        assert(rest[0] == lv[i as int]);
        assert(lv[i as int] == ls@[i as int]@);
        assert(rest.drop_first() =~= lv.skip(i + 1));
        let ghost before = string_views(services@);
        let cap = ordinal_re.captures(ls[i].as_str());
        assert(ordinal_re == SimpleRegex::Ordinal);
        if let Some(svc) = cap {
            assert(regex_capture(ordinal_re, ls@[i as int]@) == Some(svc@));
            assert(regex_capture(SimpleRegex::Ordinal, lv[i as int]) == Some(svc@));
            let service = trim_ws(svc.as_str());
            let next = if i + 1 < ls.len() {
                assert(rest[1] == lv[i + 1]);
                assert(lv[i + 1] == ls@[i + 1]@);
                device_re.captures(ls[i + 1].as_str())
            } else {
                None
            };
            let device = match &next {
                Some(d) => trim_ws(d.as_str()),
                None => String::new(),
            };
            let step: usize = if next.is_some() {
                2
            } else {
                1
            };
            let ghost nextv: Option<Seq<char>> = match next {
                Some(d) => Some(d@),
                None => None,
            };
            proof {
                assert(ordinal_capture(rest[0]) == Some(svc@));
                if i + 1 < ls.len() {
                    assert(rest.len() > 1);
                    assert(nextv == device_capture(rest[1]));
                } else {
                    assert(rest.len() == 1);
                    assert(nextv is None);
                }
                if next is Some {
                    assert(rest.skip(2) =~= lv.skip(i + 2));
                }
                assert(device@ == match nextv {
                    Some(d) => trim(d),
                    None => Seq::empty(),
                });
            }
            if !only_active || contains_string(active, device.as_str()) {
                services.push(service);
                assert(string_views(services@) =~= before + seq![service@]);
            } else {
                assert(before + Seq::<Seq<char>>::empty() =~= before);
            }
            proof {
                assert(string_views(services@) + services_from_lines(lv.skip(i + step), only_active, av)
                    =~= before + services_from_lines(rest, only_active, av));
            }
            i = i + step;
        } else {
            i = i + 1;
        }
    }
    assert(lv.skip(i as int) =~= Seq::<Seq<char>>::empty());
    assert(string_views(services@) + Seq::<Seq<char>>::empty() =~= string_views(services@));
    if services.len() == 0 {
        return Err(ProxyError::NoNetworkServices);
    }
    Ok(services)
}

/// A network interface as the system reports it.
pub struct InterfaceState {
    pub name: String,
    pub up: bool,
    pub running: bool,
    pub has_address: bool,
}

/// The names of the interfaces that are up, running and have an address, each
/// once, in the order first seen.
pub open spec fn active_names(ifs: Seq<(Seq<char>, bool, bool, bool)>) -> Seq<Seq<char>>
    decreases ifs.len(),
{
    if ifs.len() == 0 {
        Seq::empty()
    } else {
        let r = active_names(ifs.drop_last());
        let x = ifs.last();
        if x.1 && x.2 && x.3 && !r.contains(x.0) {
            r.push(x.0)
        } else {
            r
        }
    }
}

pub open spec fn interface_views(v: Seq<InterfaceState>) -> Seq<(Seq<char>, bool, bool, bool)> {
    v.map_values(|i: InterfaceState| (i.name@, i.up, i.running, i.has_address))
}

/// The names of the active interfaces among those the system reports.
pub fn get_active_interface_names(ifaces: &Vec<InterfaceState>) -> (r: Vec<String>)
    ensures
        string_views(r@) == active_names(interface_views(ifaces@)),
{
    let ghost iv = interface_views(ifaces@);
    let mut names: Vec<String> = Vec::new();
    let mut i: usize = 0;
    assert(iv.take(0) =~= Seq::<(Seq<char>, bool, bool, bool)>::empty());
    while i < ifaces.len()
        invariant
            i <= ifaces.len(),
            iv == interface_views(ifaces@),
            string_views(names@) == active_names(iv.take(i as int)),
        decreases ifaces.len() - i,
    {
        assert(iv.take(i + 1).drop_last() =~= iv.take(i as int));
        let x = &ifaces[i];
        if x.up && x.running && x.has_address && !contains_string(&names, x.name.as_str()) {
            let ghost prev = string_views(names@);
            names.push(x.name.clone());
            assert(string_views(names@) =~= prev.push(x.name@));
        }
        i = i + 1;
    }
    assert(iv.take(ifaces.len() as int) =~= iv);
    names
}

/// Which services an operation acts on.
#[derive(Debug)]
pub enum ServiceTarget {
    /// The one device that the options name.
    Device(String),
    /// The listed services, all or the active ones.
    Listed(bool),
    /// The active services, or all where listing the active ones fails.
    ActiveThenAll,
}

/// The services that setting or clearing acts on: the named device, else the
/// listed services (only the active ones where asked).
pub fn get_target_services(opt: Option<&Options>) -> (r: ServiceTarget)
    ensures
        opt_device(opt).len() > 0 ==> (r matches ServiceTarget::Device(d) && d@ == opt_device(opt)),
        opt_device(opt).len() == 0 ==> r == ServiceTarget::Listed(
            match opt {
                Some(o) => o.only_active_device,
                None => false,
            },
        ),
{
    if let Some(o) = opt {
        if o.device.unicode_len() > 0 {
            return ServiceTarget::Device(o.device.clone());
        }
        return ServiceTarget::Listed(o.only_active_device);
    }
    ServiceTarget::Listed(false)
}

/// The services that a query reads from: the named device, else the listed
/// services as the options ask; without options, the active services or else all.
pub fn get_query_services(opt: Option<&Options>) -> (r: ServiceTarget)
    ensures
        opt_device(opt).len() > 0 ==> (r matches ServiceTarget::Device(d) && d@ == opt_device(opt)),
        opt is Some && opt_device(opt).len() == 0 ==> r == ServiceTarget::Listed(
            opt->0.only_active_device,
        ),
        opt is None ==> r == ServiceTarget::ActiveThenAll,
{
    if let Some(o) = opt {
        if o.device.unicode_len() > 0 {
            return ServiceTarget::Device(o.device.clone());
        }
        return ServiceTarget::Listed(o.only_active_device);
    }
    ServiceTarget::ActiveThenAll
}

// ───────────────────────────── `networksetup` commands ─────────────────────────────

/// The arguments of `networksetup` for one command on one service: the command's
/// flag, the service, the command's other arguments.
pub open spec fn service_args(service: Seq<char>, cmd: Seq<Seq<char>>) -> Seq<Seq<char>> {
    seq![cmd[0], service] + cmd.skip(1)
}

/// The arguments of `networksetup` for `cmd` on `service`.
pub fn networksetup_args(service: &str, cmd: &Vec<String>) -> (r: Vec<String>)
    requires
        cmd.len() > 0,
    ensures
        string_views(r@) == service_args(service@, string_views(cmd@)),
{
    let mut args: Vec<String> = Vec::new();
    args.push(cmd[0].clone());
    args.push(to_string(service));
    let mut i: usize = 1;
    while i < cmd.len()
        invariant
            1 <= i <= cmd.len(),
            string_views(args@) == seq![string_views(cmd@)[0], service@] + string_views(cmd@).subrange(1, i as int),
        decreases cmd.len() - i,
    {
        let ghost prev = args@;
        args.push(cmd[i].clone());
        assert(args@ == prev.push(cmd@[i as int]));
        assert(string_views(args@) =~= string_views(prev).push(cmd@[i as int]@));
        assert(string_views(cmd@).subrange(1, i + 1) =~= string_views(cmd@).subrange(1, i as int).push(cmd@[i as int]@));
        assert(string_views(args@) =~= seq![string_views(cmd@)[0], service@] + string_views(cmd@).subrange(1, i + 1));
        i = i + 1;
    }
    assert(string_views(cmd@).subrange(1, cmd.len() as int) =~= string_views(cmd@).skip(1));
    args
}

fn two_args(a: &str, b: &str) -> (r: Vec<String>)
    ensures
        string_views(r@) == seq![a@, b@],
{
    let mut v: Vec<String> = Vec::new();
    v.push(to_string(a));
    v.push(to_string(b));
    assert(string_views(v@) =~= seq![a@, b@]);
    v
}

/// The commands that turn every kind of proxy off.
pub open spec fn darwin_disable_commands() -> Seq<Seq<Seq<char>>> {
    seq![
        seq!["-setautoproxystate"@, "off"@],
        seq!["-setproxyautodiscovery"@, "off"@],
        seq!["-setwebproxystate"@, "off"@],
        seq!["-setsecurewebproxystate"@, "off"@],
        seq!["-setsocksfirewallproxystate"@, "off"@],
    ]
}

fn push_args(v: &mut Vec<Vec<String>>, a: Vec<String>)
    ensures
        arg_lists(final(v)@) == arg_lists(old(v)@).push(string_views(a@)),
{
    let ghost prev = v@;
    let ghost av = string_views(a@);
    v.push(a);
    assert(arg_lists(v@) =~= arg_lists(prev).push(av));
}

/// The commands that turn every kind of proxy off.
pub fn disable_proxy() -> (r: Vec<Vec<String>>)
    ensures
        arg_lists(r@) == darwin_disable_commands(),
{
    let mut v: Vec<Vec<String>> = Vec::new();
    push_args(&mut v, two_args("-setautoproxystate", "off"));
    push_args(&mut v, two_args("-setproxyautodiscovery", "off"));
    push_args(&mut v, two_args("-setwebproxystate", "off"));
    push_args(&mut v, two_args("-setsecurewebproxystate", "off"));
    push_args(&mut v, two_args("-setsocksfirewallproxystate", "off"));
    assert(arg_lists(v@) =~= darwin_disable_commands());
    v
}

/// The commands that set the manual proxy on `host:port` with the bypass domains.
pub open spec fn darwin_proxy_commands(host: Seq<char>, port: Seq<char>, bypass: Seq<char>) -> Seq<
    Seq<Seq<char>>,
> {
    seq![
        seq!["-setautoproxystate"@, "off"@],
        seq!["-setproxyautodiscovery"@, "off"@],
        seq!["-setwebproxy"@, host, port],
        seq!["-setsecurewebproxy"@, host, port],
        seq!["-setsocksfirewallproxy"@, host, port],
        seq!["-setproxybypassdomains"@] + split(bypass, ','),
    ]
}

fn host_port_args(flag: &str, host: &str, port: &str) -> (r: Vec<String>)
    ensures
        string_views(r@) == seq![flag@, host@, port@],
{
    let mut a: Vec<String> = Vec::new();
    a.push(to_string(flag));
    a.push(to_string(host));
    a.push(to_string(port));
    assert(string_views(a@) =~= seq![flag@, host@, port@]);
    a
}

/// The commands that set the manual proxy that `opt` asks for, with what it leaves
/// empty taken from `current`; an error where the proxy has no host or no port.
pub fn set_proxy(opt: Option<&Options>, current: Option<&ProxyConfig>) -> (r: Result<
    Vec<Vec<String>>,
    ProxyError,
>)
    requires
        proxy_request_wants_query(opt) ==> current is Some,
    ensures
        ({
            let (proxy, bypass) = proxy_request(opt, current);
            let (host, port) = split_server(proxy);
            if host.len() == 0 || port.len() == 0 {
                r matches Err(ProxyError::InvalidProxyAddress(p)) && p@ == proxy
            } else {
                r matches Ok(v) && arg_lists(v@) == darwin_proxy_commands(host, port, bypass)
            }
        }),
{
    let (proxy, bypass) = resolve_proxy_request(opt, current);
    let addr = parse_server_string(proxy.as_str());
    if addr.host.unicode_len() == 0 || addr.port.unicode_len() == 0 {
        return Err(ProxyError::InvalidProxyAddress(proxy));
    }
    let bypass_parts = split_char(bypass.as_str(), ',');
    let mut v: Vec<Vec<String>> = Vec::new();
    push_args(&mut v, two_args("-setautoproxystate", "off"));
    push_args(&mut v, two_args("-setproxyautodiscovery", "off"));
    push_args(&mut v, host_port_args("-setwebproxy", addr.host.as_str(), addr.port.as_str()));
    push_args(&mut v, host_port_args("-setsecurewebproxy", addr.host.as_str(), addr.port.as_str()));
    push_args(&mut v, host_port_args("-setsocksfirewallproxy", addr.host.as_str(), addr.port.as_str()));
    let mut last: Vec<String> = Vec::new();
    last.push(to_string("-setproxybypassdomains"));
    let mut i: usize = 0;
    while i < bypass_parts.len()
        invariant
            i <= bypass_parts.len(),
            string_views(last@) == seq!["-setproxybypassdomains"@] + string_views(bypass_parts@).take(i as int),
        decreases bypass_parts.len() - i,
    {
        let ghost prev = last@;
        last.push(bypass_parts[i].clone());
        assert(last@ == prev.push(bypass_parts@[i as int]));
        assert(string_views(last@) =~= string_views(prev).push(bypass_parts@[i as int]@));
        assert(string_views(bypass_parts@).take(i + 1) =~= string_views(bypass_parts@).take(i as int).push(bypass_parts@[i as int]@));
        assert(string_views(last@) =~= seq!["-setproxybypassdomains"@] + string_views(bypass_parts@).take(i + 1));
        i = i + 1;
    }
    assert(string_views(bypass_parts@).take(bypass_parts.len() as int) =~= string_views(bypass_parts@));
    push_args(&mut v, last);
    assert(arg_lists(v@) =~= darwin_proxy_commands(addr.host@, addr.port@, bypass@));
    Ok(v)
}

/// The commands that turn the automatic proxy on with `url`.
pub open spec fn darwin_pac_commands(url: Seq<char>) -> Seq<Seq<Seq<char>>> {
    seq![
        seq!["-setwebproxystate"@, "off"@],
        seq!["-setsecurewebproxystate"@, "off"@],
        seq!["-setsocksfirewallproxystate"@, "off"@],
        seq!["-setautoproxyurl"@, url],
        seq!["-setautoproxystate"@, "on"@],
        seq!["-setproxyautodiscovery"@, "on"@],
    ]
}

/// The commands that turn the automatic proxy on with the URL that `opt` asks for,
/// or the current one from `current`.
pub fn set_pac(opt: Option<&Options>, current: Option<&ProxyConfig>) -> (r: Vec<Vec<String>>)
    requires
        pac_request_wants_query(opt) ==> current is Some,
    ensures
        arg_lists(r@) == darwin_pac_commands(pac_request(opt, current)),
{
    let url = resolve_pac_request(opt, current);
    let mut v: Vec<Vec<String>> = Vec::new();
    push_args(&mut v, two_args("-setwebproxystate", "off"));
    push_args(&mut v, two_args("-setsecurewebproxystate", "off"));
    push_args(&mut v, two_args("-setsocksfirewallproxystate", "off"));
    push_args(&mut v, two_args("-setautoproxyurl", url.as_str()));
    push_args(&mut v, two_args("-setautoproxystate", "on"));
    push_args(&mut v, two_args("-setproxyautodiscovery", "on"));
    assert(arg_lists(v@) =~= darwin_pac_commands(pac_request(opt, current)));
    v
}

// ───────────────────────────── reading back what was written ─────────────────────────────

/// What `networksetup` keeps for one network service: for the web, secure web and
/// SOCKS proxy whether it is on, its server and its port; for the automatic proxy
/// whether it is on, and its URL; the bypass domains; whether automatic proxy
/// discovery is on.
pub ghost struct ServiceProxyState {
    pub web: (bool, Seq<char>, Seq<char>),
    pub secure: (bool, Seq<char>, Seq<char>),
    pub socks: (bool, Seq<char>, Seq<char>),
    pub auto: (bool, Seq<char>),
    pub bypass: Seq<Seq<char>>,
    pub discovery: bool,
}

/// Every server, port and URL of the state is one line of text.
pub open spec fn state_single_line(st: ServiceProxyState) -> bool {
    &&& single_line(st.web.1) && single_line(st.web.2)
    &&& single_line(st.secure.1) && single_line(st.secure.2)
    &&& single_line(st.socks.1) && single_line(st.socks.2)
    &&& single_line(st.auto.1)
}

/// The state after one command: `-set<kind>proxy <server> <port>` sets that proxy and
/// turns it on, `-set<kind>proxystate on|off` turns it on or off,
/// `-setautoproxyurl <url>` sets the automatic proxy and turns it on,
/// `-setautoproxystate on|off` turns it on or off, `-setproxybypassdomains <domain>…`
/// sets the bypass domains, `-setproxyautodiscovery on|off` turns automatic proxy
/// discovery on or off; any other command leaves the proxies alone.
pub open spec fn networksetup_step(st: ServiceProxyState, a: Seq<Seq<char>>) -> ServiceProxyState {
    if a.len() >= 1 && a[0] == "-setproxybypassdomains"@ {
        ServiceProxyState { bypass: a.drop_first(), ..st }
    } else if a.len() == 3 && a[0] == "-setwebproxy"@ {
        ServiceProxyState { web: (true, a[1], a[2]), ..st }
    } else if a.len() == 3 && a[0] == "-setsecurewebproxy"@ {
        ServiceProxyState { secure: (true, a[1], a[2]), ..st }
    } else if a.len() == 3 && a[0] == "-setsocksfirewallproxy"@ {
        ServiceProxyState { socks: (true, a[1], a[2]), ..st }
    } else if a.len() == 2 && a[0] == "-setwebproxystate"@ {
        ServiceProxyState { web: (a[1] == "on"@, st.web.1, st.web.2), ..st }
    } else if a.len() == 2 && a[0] == "-setsecurewebproxystate"@ {
        ServiceProxyState { secure: (a[1] == "on"@, st.secure.1, st.secure.2), ..st }
    } else if a.len() == 2 && a[0] == "-setsocksfirewallproxystate"@ {
        ServiceProxyState { socks: (a[1] == "on"@, st.socks.1, st.socks.2), ..st }
    } else if a.len() == 2 && a[0] == "-setautoproxystate"@ {
        ServiceProxyState { auto: (a[1] == "on"@, st.auto.1), ..st }
    } else if a.len() == 2 && a[0] == "-setautoproxyurl"@ {
        ServiceProxyState { auto: (true, a[1]), ..st }
    } else if a.len() == 2 && a[0] == "-setproxyautodiscovery"@ {
        ServiceProxyState { discovery: a[1] == "on"@, ..st }
    } else {
        st
    }
}

/// The state after the commands `cmds` (without the service name), in order.
pub open spec fn networksetup_after(st: ServiceProxyState, cmds: Seq<Seq<Seq<char>>>) -> ServiceProxyState
    decreases cmds.len(),
{
    if cmds.len() == 0 {
        st
    } else {
        networksetup_step(networksetup_after(st, cmds.drop_last()), cmds.last())
    }
}

pub open spec fn yes_no(b: bool) -> Seq<char> {
    if b {
        "Yes"@
    } else {
        "No"@
    }
}

/// What `-get<kind>proxy` prints of a proxy.
pub open spec fn proxy_report_text(p: (bool, Seq<char>, Seq<char>)) -> Seq<char> {
    line_text(
        seq![
            "Enabled: "@ + yes_no(p.0),
            "Server: "@ + p.1,
            "Port: "@ + p.2,
            "Authenticated Proxy Enabled: 0"@,
        ],
    )
}

/// The URL as `-getautoproxyurl` shows it: `(null)` where none is set.
pub open spec fn shown_url(url: Seq<char>) -> Seq<char> {
    if url.len() == 0 {
        "(null)"@
    } else {
        url
    }
}

/// What `-getautoproxyurl` prints of the automatic proxy.
pub open spec fn auto_report_text(a: (bool, Seq<char>)) -> Seq<char> {
    line_text(seq!["URL: "@ + shown_url(a.1), "Enabled: "@ + yes_no(a.0)])
}

/// What `-getproxybypassdomains` prints of a nonempty list of bypass domains: one
/// domain per line. (Of an empty list it prints a sentence saying so, which is not
/// stated here.)
pub open spec fn bypass_report_text(domains: Seq<Seq<char>>) -> Seq<char> {
    line_text(domains)
}

/// The configuration that a query reads from the service's state, with the bypass
/// report as it came.
pub open spec fn darwin_read(st: ServiceProxyState, bypass: (bool, Seq<char>)) -> ConfigView {
    darwin_config(
        (true, auto_report_text(st.auto)),
        (true, proxy_report_text(st.web)),
        (true, proxy_report_text(st.secure)),
        (true, proxy_report_text(st.socks)),
        bypass,
    )
}

/// The literals of the reports.
proof fn lemma_report_words()
    ensures
        "Enabled: "@ + "Yes"@ == "Enabled: Yes"@,
        "Enabled: Yes"@.len() == 12,
        "Enabled: "@.len() == 9,
        "Server: "@.len() == 8,
        "Port: "@.len() == 6,
        "URL: "@.len() == 5,
        "No"@ == seq!['N', 'o'],
        "Yes"@ == seq!['Y', 'e', 's'],
        "Enabled: Yes"@[0] == 'E',
        "Enabled: Yes"@[9] == 'Y',
        "Enabled: "@ =~= "Enabled: Yes"@.take(9),
        "Server: "@[0] == 'S',
        "Port: "@[0] == 'P',
        "URL: "@[0] == 'U',
        "URL: "@[1] == 'R',
        "URL: "@[2] == 'L',
        "URL: "@[3] == ':',
        "URL: "@[4] == ' ',
        "Authenticated Proxy Enabled: 0"@[0] == 'A',
        "Authenticated Proxy Enabled: 0"@.len() == 30,
        "(null)"@.len() == 6,
        single_line("Authenticated Proxy Enabled: 0"@),
        single_line("Enabled: "@),
        single_line("Server: "@),
        single_line("Port: "@),
        single_line("URL: "@),
        single_line("(null)"@),
        single_line("Yes"@),
        single_line("No"@),
        forall|k: int| 0 <= k < 12 ==> #[trigger] "Enabled: Yes"@[k] != '\n',
{
    reveal_strlit("Enabled: ");
    reveal_strlit("Yes");
    reveal_strlit("No");
    reveal_strlit("Enabled: Yes");
    reveal_strlit("Server: ");
    reveal_strlit("Port: ");
    reveal_strlit("URL: ");
    reveal_strlit("Authenticated Proxy Enabled: 0");
    reveal_strlit("(null)");
    assert("Enabled: "@ + "Yes"@ =~= "Enabled: Yes"@);
}

/// The flags of the commands are told apart.
proof fn lemma_networksetup_flags()
    ensures
        "-setautoproxystate"@ != "-setwebproxystate"@,
        "-setautoproxystate"@ != "-setsecurewebproxystate"@,
        "-setautoproxystate"@ != "-setsocksfirewallproxystate"@,
        "-setautoproxyurl"@ != "-setwebproxystate"@,
        "-setautoproxyurl"@ != "-setsecurewebproxystate"@,
        "-setautoproxyurl"@ != "-setsocksfirewallproxystate"@,
        "-setautoproxyurl"@ != "-setautoproxystate"@,
        "-setwebproxystate"@ != "-setsecurewebproxystate"@,
        "-setwebproxystate"@ != "-setsocksfirewallproxystate"@,
        "-setsecurewebproxystate"@ != "-setsocksfirewallproxystate"@,
        "-setwebproxy"@ != "-setsecurewebproxy"@,
        "-setwebproxy"@ != "-setsocksfirewallproxy"@,
        "-setsecurewebproxy"@ != "-setsocksfirewallproxy"@,
        "-setproxyautodiscovery"@ != "-setwebproxystate"@,
        "-setproxyautodiscovery"@ != "-setsecurewebproxystate"@,
        "-setproxyautodiscovery"@ != "-setsocksfirewallproxystate"@,
        "-setproxyautodiscovery"@ != "-setautoproxystate"@,
        "-setproxyautodiscovery"@ != "-setautoproxyurl"@,
        "-setproxyautodiscovery"@ != "-setproxybypassdomains"@,
        "-setproxybypassdomains"@ != "-setwebproxy"@,
        "-setproxybypassdomains"@ != "-setsecurewebproxy"@,
        "-setproxybypassdomains"@ != "-setsocksfirewallproxy"@,
        "-setproxybypassdomains"@ != "-setwebproxystate"@,
        "-setproxybypassdomains"@ != "-setsecurewebproxystate"@,
        "-setproxybypassdomains"@ != "-setsocksfirewallproxystate"@,
        "-setproxybypassdomains"@ != "-setautoproxystate"@,
        "-setproxybypassdomains"@ != "-setautoproxyurl"@,
        "on"@ != "off"@,
{
    reveal_strlit("-setwebproxy");
    reveal_strlit("-setsecurewebproxy");
    reveal_strlit("-setsocksfirewallproxy");
    reveal_strlit("-setwebproxystate");
    reveal_strlit("-setsecurewebproxystate");
    reveal_strlit("-setsocksfirewallproxystate");
    reveal_strlit("-setautoproxystate");
    reveal_strlit("-setautoproxyurl");
    reveal_strlit("-setproxyautodiscovery");
    reveal_strlit("-setproxybypassdomains");
    reveal_strlit("on");
    reveal_strlit("off");
    assert("-setautoproxystate"@.len() != "-setwebproxystate"@.len());
    assert("-setautoproxystate"@.len() != "-setsecurewebproxystate"@.len());
    assert("-setautoproxystate"@.len() != "-setsocksfirewallproxystate"@.len());
    assert("-setautoproxyurl"@.len() != "-setwebproxystate"@.len());
    assert("-setautoproxyurl"@.len() != "-setsecurewebproxystate"@.len());
    assert("-setautoproxyurl"@.len() != "-setsocksfirewallproxystate"@.len());
    assert("-setautoproxyurl"@.len() != "-setautoproxystate"@.len());
    assert("-setwebproxystate"@.len() != "-setsecurewebproxystate"@.len());
    assert("-setwebproxystate"@.len() != "-setsocksfirewallproxystate"@.len());
    assert("-setsecurewebproxystate"@.len() != "-setsocksfirewallproxystate"@.len());
    assert("-setwebproxy"@.len() != "-setsecurewebproxy"@.len());
    assert("-setwebproxy"@.len() != "-setsocksfirewallproxy"@.len());
    assert("-setsecurewebproxy"@.len() != "-setsocksfirewallproxy"@.len());
    assert("-setproxyautodiscovery"@.len() != "-setwebproxystate"@.len());
    assert("-setproxyautodiscovery"@.len() != "-setsecurewebproxystate"@.len());
    assert("-setproxyautodiscovery"@.len() != "-setsocksfirewallproxystate"@.len());
    assert("-setproxyautodiscovery"@.len() != "-setautoproxystate"@.len());
    assert("-setproxyautodiscovery"@.len() != "-setautoproxyurl"@.len());
    assert("-setproxyautodiscovery"@[9] != "-setproxybypassdomains"@[9]);
    assert("-setproxybypassdomains"@.len() != "-setwebproxy"@.len());
    assert("-setproxybypassdomains"@.len() != "-setsecurewebproxy"@.len());
    assert("-setproxybypassdomains"@[4] != "-setsocksfirewallproxy"@[4]);
    assert("-setproxybypassdomains"@.len() != "-setwebproxystate"@.len());
    assert("-setproxybypassdomains"@.len() != "-setsecurewebproxystate"@.len());
    assert("-setproxybypassdomains"@.len() != "-setsocksfirewallproxystate"@.len());
    assert("-setproxybypassdomains"@.len() != "-setautoproxystate"@.len());
    assert("-setproxybypassdomains"@.len() != "-setautoproxyurl"@.len());
    assert("on"@.len() != "off"@.len());
}

/// A report of a proxy that is off shows none; one of a proxy that is on shows its
/// server and port, trimmed.
#[verifier::spinoff_prover]
proof fn lemma_proxy_report_text(p: (bool, Seq<char>, Seq<char>))
    requires
        single_line(p.1),
        single_line(p.2),
    ensures
        proxy_report(true, proxy_report_text(p)) == (if p.0 {
            Some((trim(p.1), trim(p.2)))
        } else {
            None
        }),
{
    lemma_report_words();
    let l0 = "Enabled: "@ + yes_no(p.0);
    let l1 = "Server: "@ + p.1;
    let l2 = "Port: "@ + p.2;
    let l3 = "Authenticated Proxy Enabled: 0"@;
    let ls = seq![l0, l1, l2, l3];
    lemma_single_line_concat("Enabled: "@, yes_no(p.0));
    lemma_single_line_concat("Server: "@, p.1);
    lemma_single_line_concat("Port: "@, p.2);
    assert forall|i: int| 0 <= i < ls.len() implies single_line(#[trigger] ls[i]) by {
        if i == 0 {
            assert(ls[i] == l0);
        } else if i == 1 {
            assert(ls[i] == l1);
        } else if i == 2 {
            assert(ls[i] == l2);
        } else {
            assert(ls[i] == l3);
        }
    }
    lemma_lines_of_line_text(ls);
    assert(lines(proxy_report_text(p)) == ls);
    assert(has_prefix(l1, "Server: "@)) by {
        assert(l1.take(8) =~= "Server: "@);
    }
    assert(l1.skip(8) =~= p.1);
    assert(has_prefix(l2, "Port: "@)) by {
        assert(l2.take(6) =~= "Port: "@);
    }
    assert(l2.skip(6) =~= p.2);
    assert(!has_prefix(l1, "Enabled: Yes"@)) by {
        if 12 <= l1.len() {
            assert(l1.take(12)[0] == 'S');
        }
    }
    assert(!has_prefix(l2, "Enabled: Yes"@)) by {
        if 12 <= l2.len() {
            assert(l2.take(12)[0] == 'P');
        }
    }
    assert(!has_prefix(l2, "Server: "@)) by {
        if 8 <= l2.len() {
            assert(l2.take(8)[0] == 'P');
        }
    }
    assert(!has_prefix(l3, "Enabled: Yes"@)) by {
        assert(l3.take(12)[0] == 'A');
    }
    assert(!has_prefix(l3, "Server: "@)) by {
        assert(l3.take(8)[0] == 'A');
    }
    assert(!has_prefix(l3, "Port: "@)) by {
        assert(l3.take(6)[0] == 'A');
    }
    if p.0 {
        assert(l0 == "Enabled: Yes"@);
        assert(has_prefix(l0, "Enabled: Yes"@)) by {
            assert(l0.take(12) =~= l0);
        }
    } else {
        assert(l0.len() == 11);
        assert(!has_prefix(l0, "Enabled: Yes"@));
    }
    reveal_with_fuel(scan_proxy_lines, 5);
    assert(ls.drop_last() =~= seq![l0, l1, l2]);
    assert(seq![l0, l1, l2].drop_last() =~= seq![l0, l1]);
    assert(seq![l0, l1].drop_last() =~= seq![l0]);
    assert(seq![l0].drop_last() =~= Seq::<Seq<char>>::empty());
}

/// A report of an automatic proxy that is off holds no `Enabled: Yes`, where its URL
/// does not.
#[verifier::spinoff_prover]
proof fn lemma_auto_off_text(u: Seq<char>)
    requires
        !contains(u, "Enabled: Yes"@),
    ensures
        !contains("URL: "@ + u + seq!['\n'] + ("Enabled: "@ + "No"@) + seq!['\n'], "Enabled: Yes"@),
{
    lemma_report_words();
    let big_p = "Enabled: Yes"@;
    let l1 = "Enabled: "@ + "No"@;
    let t = "URL: "@ + u + seq!['\n'] + l1 + seq!['\n'];
    assert(l1[9] == 'N');
    lemma_first_occurrence(u, big_p);
    lemma_first_occurrence(t, big_p);
    assert forall|i: int| !#[trigger] occurs_at(t, big_p, i) by {
        if occurs_at(t, big_p, i) {
            let w = t.subrange(i, i + 12);
            assert(w == big_p);
            if i < 5 {
                assert(w[0] == t[i]);
                assert(t[i] == "URL: "@[i]);
            } else if i + 12 <= 5 + u.len() {
                assert(u.subrange(i - 5, i + 7) =~= w);
                assert(occurs_at(u, big_p, i - 5));
            } else if i <= 5 + u.len() {
                let j = 5 + u.len() - i;
                assert(w[j] == t[5 + u.len() as int]);
                assert(t[5 + u.len() as int] == '\n');
            } else {
                assert(i == 6 + u.len());
                assert(w[9] == t[i + 9]);
                assert(t[i + 9] == l1[9]);
            }
        }
    }
}

/// A report of the automatic proxy shows it on with its URL, trimmed, where it is on;
/// off where it is off and its URL does not itself hold `Enabled: Yes`.
#[verifier::spinoff_prover]
proof fn lemma_auto_report_text(a: (bool, Seq<char>))
    requires
        single_line(a.1),
        !a.0 ==> !contains(a.1, "Enabled: Yes"@),
    ensures
        pac_report(true, auto_report_text(a)) == (if a.0 {
            (true, trim(shown_url(a.1)))
        } else {
            (false, Seq::<char>::empty())
        }),
{
    lemma_report_words();
    lemma_auto_text_lines(a);
    let u = shown_url(a.1);
    if a.0 {
        lemma_auto_on_text(u);
    } else {
        lemma_first_occurrence(u, "Enabled: Yes"@);
        assert(yes_no(a.0) == "No"@);
        lemma_auto_off_text(u);
    }
}

/// The report of the automatic proxy is its two lines, each ended by a newline.
#[verifier::spinoff_prover]
proof fn lemma_auto_text_lines(a: (bool, Seq<char>))
    requires
        single_line(a.1),
    ensures
        auto_report_text(a) == ("URL: "@ + shown_url(a.1)) + seq!['\n'] + ("Enabled: "@ + yes_no(a.0)) + seq!['\n'],
        lines(auto_report_text(a)) == seq!["URL: "@ + shown_url(a.1), "Enabled: "@ + yes_no(a.0)],
{
    lemma_report_words();
    let u = shown_url(a.1);
    let l0 = "URL: "@ + u;
    let l1 = "Enabled: "@ + yes_no(a.0);
    let ls = seq![l0, l1];
    assert(single_line(u));
    lemma_single_line_concat("URL: "@, u);
    lemma_single_line_concat("Enabled: "@, yes_no(a.0));
    assert forall|i: int| 0 <= i < ls.len() implies single_line(#[trigger] ls[i]) by {
        if i == 0 {
            assert(ls[i] == l0);
        } else {
            assert(ls[i] == l1);
        }
    }
    lemma_lines_of_line_text(ls);
    assert(ls.drop_first() =~= seq![l1]);
    assert(seq![l1].drop_first() =~= Seq::<Seq<char>>::empty());
    assert(line_text(Seq::<Seq<char>>::empty()) == Seq::<char>::empty());
    assert(line_text(seq![l1]) =~= l1 + seq!['\n']);
    assert(auto_report_text(a) =~= l0 + seq!['\n'] + l1 + seq!['\n']);
}

/// A report of an automatic proxy that is on holds `Enabled: Yes`, and its first
/// `URL: ` line gives the URL, trimmed.
#[verifier::spinoff_prover]
proof fn lemma_auto_on_text(u: Seq<char>)
    ensures
        contains(("URL: "@ + u) + seq!['\n'] + ("Enabled: "@ + "Yes"@) + seq!['\n'], "Enabled: Yes"@),
        first_url_line(seq!["URL: "@ + u, "Enabled: "@ + "Yes"@]) == trim(u),
{
    reveal_strlit("Enabled: ");
    reveal_strlit("Yes");
    reveal_strlit("Enabled: Yes");
    reveal_strlit("URL: ");
    assert("Enabled: "@ + "Yes"@ =~= "Enabled: Yes"@);
    let big_p = "Enabled: Yes"@;
    let l0 = "URL: "@ + u;
    let t = l0 + seq!['\n'] + ("Enabled: "@ + "Yes"@) + seq!['\n'];
    let i: int = l0.len() as int + 1;
    assert(t.subrange(i, i + 12) =~= big_p);
    assert(occurs_at(t, big_p, i));
    lemma_first_occurrence(t, big_p);
    assert(has_prefix(l0, "URL: "@)) by {
        assert(l0.take(5) =~= "URL: "@);
    }
    assert(l0.skip(5) =~= u);
}

/// A bypass list printed one domain per line reads back as itself; for a list that
/// is trimmed text on one line and neither starts nor ends with a comma.
#[verifier::spinoff_prover]
proof fn lemma_bypass_report_text(bypass: Seq<char>)
    requires
        single_line(bypass),
        trim(bypass) == bypass,
        bypass.len() > 0 ==> bypass[0] != ',' && bypass.last() != ',',
    ensures
        bypass_report(true, bypass_report_text(split(bypass, ','))) == bypass,
{
    let items = split(bypass, ',');
    lemma_split_nonempty(bypass, ',');
    lemma_split_pieces(bypass, ',');
    lemma_line_text_join(items);
    lemma_join_split(bypass, ',');
    lemma_replace_join(items, ',');
    let j = join(items, seq!['\n']);
    let t = j + seq!['\n'];
    assert(replace_char(j, '\n', ',') == bypass);
    assert(j.len() == bypass.len());
    if j.len() == 0 {
        assert(t =~= seq!['\n']);
        assert(t.drop_first() =~= Seq::<char>::empty());
        assert(trim(t) =~= Seq::<char>::empty());
        assert(bypass =~= Seq::<char>::empty());
        assert(replace_char(Seq::<char>::empty(), '\n', ',') =~= Seq::<char>::empty());
    } else {
        lemma_trim_fixed(CharClass::Whitespace, bypass);
        assert(bypass[0] == (if j[0] == '\n' { ',' } else { j[0] }));
        assert(j[0] == bypass[0]);
        let n = j.len() - 1;
        assert(bypass[n] == (if j[n] == '\n' { ',' } else { j[n] }));
        assert(bypass.last() == bypass[n]);
        assert(j[n] == bypass[n]);
        assert(t[0] == j[0]);
        assert(strip_lead(CharClass::Whitespace, t) == t);
        assert(t.drop_last() =~= j);
        assert(j.last() == j[n]);
        assert(strip_trail(CharClass::Whitespace, j) == j);
        assert(strip_trail(CharClass::Whitespace, t) == j);
        assert(trim(t) == j);
    }
}

/// Splitting the server that a proxy request names gives back its host and port.
proof fn lemma_request_server(host: Seq<char>, port: nat)
    requires
        clean(host) == host,
        host.len() > 0,
        port > 0,
    ensures
        split_server(host + seq![':'] + decimal(port)) == (host, decimal(port)),
        server_text(host, decimal(port)) == host + seq![':'] + decimal(port),
        trim(host) == host,
        trim(decimal(port)) == decimal(port),
        single_line(decimal(port)),
{
    let p = decimal(port);
    lemma_decimal_digits(port);
    lemma_clean_plain(p);
    lemma_clean_fixed(host);
    lemma_clean_fixed(p);
    assert(server_text(host, p) == host + seq![':'] + p);
    law_split_formatted_server(host, p);
}

/// After the commands of setting a proxy `host:port` on a network service, a query
/// of that service reads back the manual proxy on with `host:port` for HTTP, HTTPS and
/// SOCKS, and the automatic proxy off, and automatic proxy discovery is off; for a
/// host that is plain text on one line, a
/// port number between 1 and 65535, and a service whose URL does not itself hold
/// `Enabled: Yes`.
#[verifier::spinoff_prover]
pub proof fn law_networksetup_reads_back_proxy(prior: ServiceProxyState, host: Seq<char>, port: nat, bypass: Seq<char>)
    requires
        state_single_line(prior),
        !contains(prior.auto.1, "Enabled: Yes"@),
        clean(host) == host,
        host.len() > 0,
        single_line(host),
        0 < port <= 65535,
    ensures
        ({
            let proxy = host + seq![':'] + decimal(port);
            let addr = split_server(proxy);
            let st = networksetup_after(prior, darwin_proxy_commands(addr.0, addr.1, bypass));
            let c = darwin_read(st, (true, bypass_report_text(st.bypass)));
            &&& c.proxy_enable
            &&& c.servers["http_server"@] == proxy
            &&& c.servers["https_server"@] == proxy
            &&& c.servers["socks_server"@] == proxy
            &&& !c.pac_enable
            &&& !st.discovery
        }),
{
    lemma_networksetup_flags();
    lemma_request_server(host, port);
    lemma_server_keys();
    let p = decimal(port);
    let cmds = darwin_proxy_commands(host, p, bypass);
    reveal_with_fuel(networksetup_after, 7);
    assert(cmds.drop_last() =~= cmds.take(5));
    assert(cmds.take(5).drop_last() =~= cmds.take(4));
    assert(cmds.take(4).drop_last() =~= cmds.take(3));
    assert(cmds.take(3).drop_last() =~= cmds.take(2));
    assert(cmds.take(2).drop_last() =~= cmds.take(1));
    assert(cmds.take(1).drop_last() =~= Seq::<Seq<Seq<char>>>::empty());
    let st = networksetup_after(prior, cmds);
    assert(st.web == (true, host, p));
    assert(st.secure == (true, host, p));
    assert(st.socks == (true, host, p));
    assert(st.auto == (false, prior.auto.1));
    lemma_proxy_report_text(st.web);
    lemma_auto_report_text(st.auto);
}

/// After the commands of setting a proxy with a bypass list on a network service, a
/// query of that service reads back the bypass list; for a list that is trimmed text
/// on one line and neither starts nor ends with a comma.
pub proof fn law_networksetup_reads_back_bypass(
    prior: ServiceProxyState,
    host: Seq<char>,
    port: Seq<char>,
    bypass: Seq<char>,
)
    requires
        single_line(bypass),
        trim(bypass) == bypass,
        bypass.len() > 0 ==> bypass[0] != ',' && bypass.last() != ',',
    ensures
        ({
            let st = networksetup_after(prior, darwin_proxy_commands(host, port, bypass));
            darwin_read(st, (true, bypass_report_text(st.bypass))).bypass == bypass
        }),
{
    lemma_networksetup_flags();
    let cmds = darwin_proxy_commands(host, port, bypass);
    assert((seq!["-setproxybypassdomains"@] + split(bypass, ',')).drop_first() =~= split(bypass, ','));
    let st = networksetup_after(prior, cmds);
    assert(st.bypass == split(bypass, ','));
    lemma_bypass_report_text(bypass);
}

/// After the commands of turning the automatic proxy on with `url` on a network
/// service, a query of that service reads back the automatic proxy on with the URL
/// and the manual proxy off, and automatic proxy discovery is on; for a URL that is
/// trimmed text on one line.
#[verifier::spinoff_prover]
pub proof fn law_networksetup_reads_back_pac(prior: ServiceProxyState, url: Seq<char>, bypass_out: (bool, Seq<char>))
    requires
        state_single_line(prior),
        single_line(url),
        trim(url) == url,
        url.len() > 0,
    ensures
        darwin_read(networksetup_after(prior, darwin_pac_commands(url)), bypass_out).pac_enable,
        darwin_read(networksetup_after(prior, darwin_pac_commands(url)), bypass_out).pac_url == url,
        !darwin_read(networksetup_after(prior, darwin_pac_commands(url)), bypass_out).proxy_enable,
        networksetup_after(prior, darwin_pac_commands(url)).discovery,
{
    lemma_networksetup_flags();
    let cmds = darwin_pac_commands(url);
    reveal_with_fuel(networksetup_after, 7);
    assert(cmds.drop_last() =~= cmds.take(5));
    assert(cmds.take(5).drop_last() =~= cmds.take(4));
    assert(cmds.take(4).drop_last() =~= cmds.take(3));
    assert(cmds.take(3).drop_last() =~= cmds.take(2));
    assert(cmds.take(2).drop_last() =~= cmds.take(1));
    assert(cmds.take(1).drop_last() =~= Seq::<Seq<Seq<char>>>::empty());
    let st = networksetup_after(prior, cmds);
    assert(st.web == (false, prior.web.1, prior.web.2));
    assert(st.secure == (false, prior.secure.1, prior.secure.2));
    assert(st.socks == (false, prior.socks.1, prior.socks.2));
    assert(st.auto == (true, url));
    lemma_proxy_report_text(st.web);
    lemma_proxy_report_text(st.secure);
    lemma_proxy_report_text(st.socks);
    lemma_auto_report_text(st.auto);
}

/// After the commands of turning every proxy off on a network service, a query of
/// that service reads back both the manual and the automatic proxy off, and automatic
/// proxy discovery is off; for a service whose URL does not itself hold
/// `Enabled: Yes`.
#[verifier::spinoff_prover]
pub proof fn law_networksetup_reads_back_disabled(prior: ServiceProxyState, bypass_out: (bool, Seq<char>))
    requires
        state_single_line(prior),
        !contains(prior.auto.1, "Enabled: Yes"@),
    ensures
        !darwin_read(networksetup_after(prior, darwin_disable_commands()), bypass_out).proxy_enable,
        !darwin_read(networksetup_after(prior, darwin_disable_commands()), bypass_out).pac_enable,
        !networksetup_after(prior, darwin_disable_commands()).discovery,
{
    lemma_networksetup_flags();
    let cmds = darwin_disable_commands();
    reveal_with_fuel(networksetup_after, 6);
    assert(cmds.drop_last() =~= cmds.take(4));
    assert(cmds.take(4).drop_last() =~= cmds.take(3));
    assert(cmds.take(3).drop_last() =~= cmds.take(2));
    assert(cmds.take(2).drop_last() =~= cmds.take(1));
    assert(cmds.take(1).drop_last() =~= Seq::<Seq<Seq<char>>>::empty());
    let st = networksetup_after(prior, cmds);
    assert(st.web == (false, prior.web.1, prior.web.2));
    assert(st.secure == (false, prior.secure.1, prior.secure.2));
    assert(st.socks == (false, prior.socks.1, prior.socks.2));
    assert(st.auto == (false, prior.auto.1));
    lemma_proxy_report_text(st.web);
    lemma_proxy_report_text(st.secure);
    lemma_proxy_report_text(st.socks);
    lemma_auto_report_text(st.auto);
}

/// A query reads the manual proxy on exactly when any one of the web, secure web and
/// SOCKS proxies is on, and reads each proxy that is on, with a server and port, as
/// that proxy's own server; for a state whose servers and ports are on one line.
#[verifier::spinoff_prover]
pub proof fn law_networksetup_reads_any_proxy(st: ServiceProxyState, bypass_out: (bool, Seq<char>))
    requires
        state_single_line(st),
    ensures
        darwin_read(st, bypass_out).proxy_enable == (st.web.0 || st.secure.0 || st.socks.0),
        st.web.0 && server_text(trim(st.web.1), trim(st.web.2)).len() > 0 ==> darwin_read(st, bypass_out).servers["http_server"@]
            == server_text(trim(st.web.1), trim(st.web.2)),
        st.secure.0 && server_text(trim(st.secure.1), trim(st.secure.2)).len() > 0 ==> darwin_read(st, bypass_out).servers["https_server"@]
            == server_text(trim(st.secure.1), trim(st.secure.2)),
        st.socks.0 && server_text(trim(st.socks.1), trim(st.socks.2)).len() > 0 ==> darwin_read(st, bypass_out).servers["socks_server"@]
            == server_text(trim(st.socks.1), trim(st.socks.2)),
{
    lemma_server_keys();
    lemma_proxy_report_text(st.web);
    lemma_proxy_report_text(st.secure);
    lemma_proxy_report_text(st.socks);
}

} // verus!
