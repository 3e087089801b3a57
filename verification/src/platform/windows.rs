//! Windows: per-connection WinINet options, or the Internet Settings registry key.
use vstd::prelude::*;

use crate::error::ProxyError;
use crate::options::{opt_device, opt_pac_url, pac_request_wants_query, proxy_request_wants_query, requested_pac_url, resolve_pac_request, resolve_proxy_request, Options};
use crate::platform::linux::{pac_request, proxy_request};
use crate::strmap::StrMap;
use crate::text::{chars_of, str_eq, string_views, strip_trail, to_string, trim_end_chars, CharClass};
use crate::types::{ConfigView, PacInfo, ProxyConfig, ProxyInfo};

verus! {

/// `PROXY_TYPE_DIRECT`: connect directly.
pub const PROXY_TYPE_DIRECT: u32 = 1;

/// `PROXY_TYPE_PROXY`: use the proxy server.
pub const PROXY_TYPE_PROXY: u32 = 2;

/// `PROXY_TYPE_AUTO_PROXY_URL`: use the automatic configuration script.
pub const PROXY_TYPE_AUTO_PROXY_URL: u32 = 4;

/// Whether the options ask for the registry backend.
pub open spec fn registry_mode(opt: Option<&Options>) -> bool {
    match opt {
        Some(o) => o.use_registry,
        None => false,
    }
}

/// Whether the options ask for the registry backend.
pub fn use_registry_settings(opt: Option<&Options>) -> (r: bool)
    ensures
        r == registry_mode(opt),
{
    match opt {
        Some(o) => o.use_registry,
        None => false,
    }
}

/// The registry backend acts on the whole user; it refuses a named device.
pub fn validate_registry_target(opt: Option<&Options>) -> (r: Result<(), ProxyError>)
    ensures
        r is Err <==> opt_device(opt).len() > 0,
        r matches Err(e) ==> e is RegistryDeviceUnsupported,
{
    if let Some(o) = opt {
        if o.device.unicode_len() > 0 {
            return Err(ProxyError::RegistryDeviceUnsupported);
        }
    }
    Ok(())
}

/// Where a query reads the settings from.
#[derive(Clone, Copy, PartialEq, Eq, Structural, Debug)]
pub enum QuerySource {
    /// The Internet Settings registry key.
    Registry,
    /// WinINet.
    WinInet,
}

/// Where a query for `opt` reads the settings from: the registry where the options
/// ask for it, and then no device may be named; WinINet otherwise.
pub fn query_source(opt: Option<&Options>) -> (r: Result<QuerySource, ProxyError>)
    ensures
        !registry_mode(opt) ==> r == Ok::<QuerySource, ProxyError>(QuerySource::WinInet),
        registry_mode(opt) && opt_device(opt).len() > 0 ==> (r matches Err(e) && e is RegistryDeviceUnsupported),
        registry_mode(opt) && opt_device(opt).len() == 0 ==> r == Ok::<QuerySource, ProxyError>(QuerySource::Registry),
{
    if use_registry_settings(opt) {
        match validate_registry_target(opt) {
            Ok(()) => Ok(QuerySource::Registry),
            Err(e) => Err(e),
        }
    } else {
        Ok(QuerySource::WinInet)
    }
}

// ───────────────────────────── connections ─────────────────────────────

/// Which connections WinINet options go to.
#[derive(Debug)]
pub enum ConnectionTarget {
    /// The one connection that the options name.
    Named(String),
    /// Only the default connection.
    DefaultOnly,
    /// Every connection listed in the registry, then the default one.
    All,
}

/// The connections that WinINet options go to: the named device, else the default
/// connection alone where only the active one is asked for, else all.
pub fn get_target_connections(opt: Option<&Options>) -> (r: ConnectionTarget)
    ensures
        opt_device(opt).len() > 0 ==> (r matches ConnectionTarget::Named(d) && d@ == opt_device(opt)),
        opt_device(opt).len() == 0 && opt is Some && opt->0.only_active_device ==> r is DefaultOnly,
        opt_device(opt).len() == 0 && !(opt is Some && opt->0.only_active_device) ==> r is All,
{
    if let Some(o) = opt {
        if o.device.unicode_len() > 0 {
            return ConnectionTarget::Named(o.device.clone());
        }
        if o.only_active_device {
            return ConnectionTarget::DefaultOnly;
        }
    }
    ConnectionTarget::All
}

/// A value name under `Connections` that names a connection: not empty and not
/// one of the two settings blobs.
pub open spec fn is_connection_name(n: Seq<char>) -> bool {
    n.len() > 0 && n != "DefaultConnectionSettings"@ && n != "SavedLegacySettings"@
}

/// The connection names among the value names, in order.
pub open spec fn connection_names(ns: Seq<Seq<char>>) -> Seq<Seq<char>>
    decreases ns.len(),
{
    if ns.len() == 0 {
        Seq::empty()
    } else {
        let r = connection_names(ns.drop_last());
        if is_connection_name(ns.last()) {
            r.push(ns.last())
        } else {
            r
        }
    }
}

/// The connections to act on when all are asked for: those named among the value
/// names under `Connections`, then the default connection (the empty name).
pub fn all_connections(value_names: &Vec<String>) -> (r: Vec<String>)
    ensures
        string_views(r@) == connection_names(string_views(value_names@)).push(Seq::empty()),
{
    let ghost nv = string_views(value_names@);
    let mut out: Vec<String> = Vec::new();
    let mut i: usize = 0;
    assert(nv.take(0) =~= Seq::<Seq<char>>::empty());
    while i < value_names.len()
        invariant
            i <= value_names.len(),
            nv == string_views(value_names@),
            string_views(out@) == connection_names(nv.take(i as int)),
        decreases value_names.len() - i,
    {
        assert(nv.take(i + 1).drop_last() =~= nv.take(i as int));
        let n = value_names[i].as_str();
        if n.unicode_len() > 0 && !str_eq(n, "DefaultConnectionSettings") && !str_eq(n, "SavedLegacySettings") {
            let ghost prev = out@;
            out.push(value_names[i].clone());
            assert(string_views(out@) =~= string_views(prev).push(nv[i as int]));
        }
        i = i + 1;
    }
    assert(nv.take(value_names.len() as int) =~= nv);
    let ghost prev = out@;
    out.push(String::new());
    assert(string_views(out@) =~= string_views(prev).push(Seq::<char>::empty()));
    out
}

// ───────────────────────────── registry ─────────────────────────────

/// One write to the Internet Settings key.
#[derive(Debug)]
pub enum RegistryOp {
    SetDword(String, u32),
    SetString(String, String),
    Delete(String),
}

/// A registry write as mathematical values.
pub ghost enum RegOpView {
    SetDword(Seq<char>, u32),
    SetString(Seq<char>, Seq<char>),
    Delete(Seq<char>),
}

impl View for RegistryOp {
    type V = RegOpView;

    open spec fn view(&self) -> RegOpView {
        match self {
            RegistryOp::SetDword(n, v) => RegOpView::SetDword(n@, *v),
            RegistryOp::SetString(n, v) => RegOpView::SetString(n@, v@),
            RegistryOp::Delete(n) => RegOpView::Delete(n@),
        }
    }
}

pub open spec fn reg_views(v: Seq<RegistryOp>) -> Seq<RegOpView> {
    v.map_values(|o: RegistryOp| o@)
}

fn push_op(v: &mut Vec<RegistryOp>, op: RegistryOp)
    ensures
        reg_views(final(v)@) == reg_views(old(v)@).push(op@),
{
    let ghost prev = v@;
    let ghost ov = op@;
    v.push(op);
    assert(reg_views(v@) =~= reg_views(prev).push(ov));
}

fn set_dword(name: &str, value: u32) -> (r: RegistryOp)
    ensures
        r@ == RegOpView::SetDword(name@, value),
{
    RegistryOp::SetDword(to_string(name), value)
}

fn set_string(name: &str, value: &str) -> (r: RegistryOp)
    ensures
        r@ == RegOpView::SetString(name@, value@),
{
    RegistryOp::SetString(to_string(name), to_string(value))
}

fn delete_value(name: &str) -> (r: RegistryOp)
    ensures
        r@ == RegOpView::Delete(name@),
{
    RegistryOp::Delete(to_string(name))
}

/// The writes that turn the proxy off.
pub open spec fn registry_disable_ops() -> Seq<RegOpView> {
    seq![
        RegOpView::SetDword("ProxyEnable"@, 0),
        RegOpView::SetDword("AutoDetect"@, 0),
        RegOpView::Delete("AutoConfigURL"@),
    ]
}

/// The writes that turn the manual proxy on with `proxy` and `bypass`.
pub open spec fn registry_proxy_ops(proxy: Seq<char>, bypass: Seq<char>) -> Seq<RegOpView> {
    seq![
        RegOpView::SetDword("ProxyEnable"@, 1),
        RegOpView::SetString("ProxyServer"@, proxy),
        RegOpView::SetString("ProxyOverride"@, bypass),
        RegOpView::SetDword("AutoDetect"@, 0),
        RegOpView::Delete("AutoConfigURL"@),
    ]
}

/// The writes that turn the automatic proxy on with `url`.
pub open spec fn registry_pac_ops(url: Seq<char>) -> Seq<RegOpView> {
    seq![RegOpView::SetDword("ProxyEnable"@, 0), RegOpView::SetDword("AutoDetect"@, 0)] + (if url.len()
        > 0 {
        seq![RegOpView::SetString("AutoConfigURL"@, url)]
    } else {
        Seq::empty()
    })
}

/// The writes that turn the proxy off; an error where a device is named.
pub fn disable_proxy_registry(opt: Option<&Options>) -> (r: Result<Vec<RegistryOp>, ProxyError>)
    ensures
        opt_device(opt).len() > 0 ==> (r matches Err(e) && e is RegistryDeviceUnsupported),
        opt_device(opt).len() == 0 ==> (r matches Ok(v) && reg_views(v@) == registry_disable_ops()),
{
    validate_registry_target(opt)?;
    let mut v: Vec<RegistryOp> = Vec::new();
    push_op(&mut v, set_dword("ProxyEnable", 0));
    push_op(&mut v, set_dword("AutoDetect", 0));
    push_op(&mut v, delete_value("AutoConfigURL"));
    assert(reg_views(v@) =~= registry_disable_ops());
    Ok(v)
}

/// The writes that turn the manual proxy on as `opt` asks, with what it leaves
/// empty taken from `current`; an error where a device is named.
pub fn set_proxy_registry(opt: Option<&Options>, current: Option<&ProxyConfig>) -> (r: Result<
    Vec<RegistryOp>,
    ProxyError,
>)
    requires
        proxy_request_wants_query(opt) ==> current is Some,
    ensures
        opt_device(opt).len() > 0 ==> (r matches Err(e) && e is RegistryDeviceUnsupported),
        opt_device(opt).len() == 0 ==> (r matches Ok(v) && reg_views(v@) == registry_proxy_ops(
            proxy_request(opt, current).0,
            proxy_request(opt, current).1,
        )),
{
    validate_registry_target(opt)?;
    let (proxy, bypass) = resolve_proxy_request(opt, current);
    let mut v: Vec<RegistryOp> = Vec::new();
    push_op(&mut v, set_dword("ProxyEnable", 1));
    push_op(&mut v, set_string("ProxyServer", proxy.as_str()));
    push_op(&mut v, set_string("ProxyOverride", bypass.as_str()));
    push_op(&mut v, set_dword("AutoDetect", 0));
    push_op(&mut v, delete_value("AutoConfigURL"));
    assert(reg_views(v@) =~= registry_proxy_ops(proxy@, bypass@));
    Ok(v)
}

/// The writes that turn the automatic proxy on with the URL that `opt` asks for, or
/// the current one from `current`; an error where a device is named.
pub fn set_pac_registry(opt: Option<&Options>, current: Option<&ProxyConfig>) -> (r: Result<
    Vec<RegistryOp>,
    ProxyError,
>)
    requires
        pac_request_wants_query(opt) ==> current is Some,
    ensures
        opt_device(opt).len() > 0 ==> (r matches Err(e) && e is RegistryDeviceUnsupported),
        opt_device(opt).len() == 0 ==> (r matches Ok(v) && reg_views(v@) == registry_pac_ops(
            pac_request(opt, current),
        )),
{
    validate_registry_target(opt)?;
    let url = resolve_pac_request(opt, current);
    let mut v: Vec<RegistryOp> = Vec::new();
    push_op(&mut v, set_dword("ProxyEnable", 0));
    push_op(&mut v, set_dword("AutoDetect", 0));
    if url.unicode_len() > 0 {
        push_op(&mut v, set_string("AutoConfigURL", url.as_str()));
    }
    assert(reg_views(v@) =~= registry_pac_ops(url@));
    Ok(v)
}

/// The values read from the Internet Settings key; a missing value reads as 0 or
/// as the empty string.
pub struct RegistryValues {
    pub proxy_enable: u32,
    pub proxy_server: String,
    pub proxy_override: String,
    pub auto_config_url: String,
}

/// The configuration that the registry values describe.
pub open spec fn registry_config(pe: u32, server: Seq<char>, over: Seq<char>, url: Seq<char>) -> ConfigView {
    ConfigView {
        proxy_enable: pe != 0,
        same_for_all: false,
        servers: map!["http_server"@ => server],
        bypass: over,
        pac_enable: url.len() > 0,
        pac_url: url,
    }
}

/// The configuration that the registry values describe.
pub fn query_proxy_settings_registry(values: &RegistryValues) -> (r: ProxyConfig)
    ensures
        r@ == registry_config(
            values.proxy_enable,
            values.proxy_server@,
            values.proxy_override@,
            values.auto_config_url@,
        ),
{
    let mut servers = StrMap::new();
    servers.insert(to_string("http_server"), values.proxy_server.clone());
    let r = ProxyConfig {
        proxy: ProxyInfo {
            enable: values.proxy_enable != 0,
            same_for_all: false,
            servers,
            bypass: values.proxy_override.clone(),
        },
        pac: PacInfo {
            enable: values.auto_config_url.unicode_len() > 0,
            url: values.auto_config_url.clone(),
        },
    };
    assert(r@.servers =~= map!["http_server"@ => values.proxy_server@]);
    r
}

/// A registry string without the NULs that end it.
pub fn registry_string(raw: &str) -> (r: String)
    ensures
        r@ == strip_trail(CharClass::Nul, raw@),
{
    trim_end_chars(CharClass::Nul, raw)
}

// ───────────────────────────── WinINet ─────────────────────────────

/// One per-connection option.
#[derive(Debug)]
pub enum PerConnOption {
    Flags(u32),
    ProxyServer(String),
    ProxyBypass(String),
    AutoConfigUrl(String),
}

/// A per-connection option as mathematical values.
pub ghost enum OptionView {
    Flags(u32),
    ProxyServer(Seq<char>),
    ProxyBypass(Seq<char>),
    AutoConfigUrl(Seq<char>),
}

impl View for PerConnOption {
    type V = OptionView;

    open spec fn view(&self) -> OptionView {
        match self {
            PerConnOption::Flags(f) => OptionView::Flags(*f),
            PerConnOption::ProxyServer(s) => OptionView::ProxyServer(s@),
            PerConnOption::ProxyBypass(s) => OptionView::ProxyBypass(s@),
            PerConnOption::AutoConfigUrl(s) => OptionView::AutoConfigUrl(s@),
        }
    }
}

pub open spec fn option_views(v: Seq<PerConnOption>) -> Seq<OptionView> {
    v.map_values(|o: PerConnOption| o@)
}

fn push_option(v: &mut Vec<PerConnOption>, o: PerConnOption)
    ensures
        option_views(final(v)@) == option_views(old(v)@).push(o@),
{
    let ghost prev = v@;
    let ghost ov = o@;
    v.push(o);
    assert(option_views(v@) =~= option_views(prev).push(ov));
}

/// What an operation writes: registry values, or per-connection options.
#[derive(Debug)]
pub enum WindowsPlan {
    Registry(Vec<RegistryOp>),
    WinInet(Vec<PerConnOption>),
}

/// The plan's writes as mathematical values.
pub ghost enum PlanView {
    Registry(Seq<RegOpView>),
    WinInet(Seq<OptionView>),
}

impl View for WindowsPlan {
    type V = PlanView;

    open spec fn view(&self) -> PlanView {
        match self {
            WindowsPlan::Registry(v) => PlanView::Registry(reg_views(v@)),
            WindowsPlan::WinInet(v) => PlanView::WinInet(option_views(v@)),
        }
    }
}

/// The result of a registry plan, or of a WinINet plan that cannot fail.
pub open spec fn plan_ok(
    opt: Option<&Options>,
    r: Result<WindowsPlan, ProxyError>,
    reg: Seq<RegOpView>,
    inet: Seq<OptionView>,
) -> bool {
    if registry_mode(opt) {
        if opt_device(opt).len() > 0 {
            r matches Err(e) && e is RegistryDeviceUnsupported
        } else {
            r matches Ok(p) && p@ == PlanView::Registry(reg)
        }
    } else {
        r matches Ok(p) && p@ == PlanView::WinInet(inet)
    }
}

/// The writes that turn the proxy off.
pub fn disable_proxy(opt: Option<&Options>) -> (r: Result<WindowsPlan, ProxyError>)
    ensures
        plan_ok(opt, r, registry_disable_ops(), seq![OptionView::Flags(PROXY_TYPE_DIRECT)]),
{
    if use_registry_settings(opt) {
        let ops = disable_proxy_registry(opt)?;
        return Ok(WindowsPlan::Registry(ops));
    }
    let mut v: Vec<PerConnOption> = Vec::new();
    push_option(&mut v, PerConnOption::Flags(PROXY_TYPE_DIRECT));
    assert(option_views(v@) =~= seq![OptionView::Flags(PROXY_TYPE_DIRECT)]);
    Ok(WindowsPlan::WinInet(v))
}

/// The options that turn the manual proxy on with `proxy` and `bypass`.
pub open spec fn wininet_proxy_options(proxy: Seq<char>, bypass: Seq<char>) -> Seq<OptionView> {
    seq![
        OptionView::Flags(PROXY_TYPE_PROXY),
        OptionView::ProxyServer(proxy),
        OptionView::ProxyBypass(bypass),
    ]
}

/// The writes that turn the manual proxy on as `opt` asks, with what it leaves empty
/// taken from `current`: the registry's settings in registry mode, else WinINet's
/// settings read without options.
pub fn set_proxy(opt: Option<&Options>, current: Option<&ProxyConfig>) -> (r: Result<WindowsPlan, ProxyError>)
    requires
        proxy_request_wants_query(opt) ==> current is Some,
    ensures
        plan_ok(
            opt,
            r,
            registry_proxy_ops(proxy_request(opt, current).0, proxy_request(opt, current).1),
            wininet_proxy_options(proxy_request(opt, current).0, proxy_request(opt, current).1),
        ),
{
    if use_registry_settings(opt) {
        let ops = set_proxy_registry(opt, current)?;
        return Ok(WindowsPlan::Registry(ops));
    }
    let (proxy, bypass) = resolve_proxy_request(opt, current);
    let ghost pv = proxy@;
    let ghost bv = bypass@;
    let mut v: Vec<PerConnOption> = Vec::new();
    push_option(&mut v, PerConnOption::Flags(PROXY_TYPE_PROXY));
    push_option(&mut v, PerConnOption::ProxyServer(proxy));
    push_option(&mut v, PerConnOption::ProxyBypass(bypass));
    assert(option_views(v@) =~= wininet_proxy_options(pv, bv));
    Ok(WindowsPlan::WinInet(v))
}

/// The options that turn the automatic proxy on: the flag, and the URL where one is
/// given.
pub open spec fn wininet_pac_options(url: Seq<char>) -> Seq<OptionView> {
    if url.len() == 0 {
        seq![OptionView::Flags(PROXY_TYPE_AUTO_PROXY_URL)]
    } else {
        seq![OptionView::Flags(PROXY_TYPE_AUTO_PROXY_URL), OptionView::AutoConfigUrl(url)]
    }
}

/// The writes that turn the automatic proxy on: in registry mode with the URL that
/// `opt` asks for or the registry's current one from `current`; else with the URL
/// of `opt`, or with the flag alone where it has none.
pub fn set_pac(opt: Option<&Options>, current: Option<&ProxyConfig>) -> (r: Result<WindowsPlan, ProxyError>)
    requires
        registry_mode(opt) && pac_request_wants_query(opt) ==> current is Some,
    ensures
        plan_ok(
            opt,
            r,
            registry_pac_ops(pac_request(opt, current)),
            wininet_pac_options(opt_pac_url(opt)),
        ),
{
    if use_registry_settings(opt) {
        let ops = set_pac_registry(opt, current)?;
        return Ok(WindowsPlan::Registry(ops));
    }
    let url = requested_pac_url(opt);
    let ghost uv = url@;
    let mut v: Vec<PerConnOption> = Vec::new();
    push_option(&mut v, PerConnOption::Flags(PROXY_TYPE_AUTO_PROXY_URL));
    if url.unicode_len() > 0 {
        push_option(&mut v, PerConnOption::AutoConfigUrl(url));
    }
    assert(option_views(v@) =~= wininet_pac_options(uv));
    Ok(WindowsPlan::WinInet(v))
}

/// What WinINet reports of the default connection.
pub struct WinInetValues {
    pub flags: u32,
    pub proxy_server: String,
    pub proxy_bypass: String,
    pub auto_config_url: String,
}

/// The configuration that WinINet's flags, server, bypass list and URL describe.
pub open spec fn wininet_config(flags: u32, server: Seq<char>, bypass: Seq<char>, url: Seq<char>) -> ConfigView {
    ConfigView {
        proxy_enable: flags & PROXY_TYPE_PROXY != 0,
        same_for_all: false,
        servers: map!["http_server"@ => server],
        bypass: bypass,
        pac_enable: flags & PROXY_TYPE_AUTO_PROXY_URL != 0,
        pac_url: url,
    }
}

/// The flag bits, as arithmetic: the automatic proxy bit is the third bit, the proxy
/// bit the second.
proof fn lemma_flag_bits(flags: u32)
    ensures
        (flags & PROXY_TYPE_AUTO_PROXY_URL != 0) == ((flags / 4) % 2 == 1),
        (flags & PROXY_TYPE_PROXY != 0) == ((flags / 2) % 2 == 1),
{
    assert((flags & 4u32 != 0) == ((flags / 4) % 2 == 1)) by (bit_vector);
    assert((flags & 2u32 != 0) == ((flags / 2) % 2 == 1)) by (bit_vector);
}

/// WinINet's flags read as the automatic proxy on exactly when the automatic proxy
/// bit is set, and as the manual proxy on exactly when the proxy bit is set, whatever
/// other bits (direct, automatic detection) are set with them.
pub proof fn law_wininet_flags_read_by_bit(flags: u32, server: Seq<char>, bypass: Seq<char>, url: Seq<char>)
    ensures
        wininet_config(flags, server, bypass, url).pac_enable == ((flags / 4) % 2 == 1),
        wininet_config(flags, server, bypass, url).proxy_enable == ((flags / 2) % 2 == 1),
        wininet_config(flags, server, bypass, url).pac_url == url,
        wininet_config(flags, server, bypass, url).bypass == bypass,
        wininet_config(flags, server, bypass, url).servers["http_server"@] == server,
{
    lemma_flag_bits(flags);
}

/// The configuration that WinINet reports.
pub fn query_proxy_settings_wininet(values: &WinInetValues) -> (r: ProxyConfig)
    ensures
        r@ == wininet_config(
            values.flags,
            values.proxy_server@,
            values.proxy_bypass@,
            values.auto_config_url@,
        ),
        r.pac.enable == ((values.flags / 4) % 2 == 1),
        r.proxy.enable == ((values.flags / 2) % 2 == 1),
{
    proof {
        lemma_flag_bits(values.flags);
    }
    let mut servers = StrMap::new();
    servers.insert(to_string("http_server"), values.proxy_server.clone());
    let r = ProxyConfig {
        proxy: ProxyInfo {
            enable: values.flags & PROXY_TYPE_PROXY != 0,
            same_for_all: false,
            servers,
            bypass: values.proxy_bypass.clone(),
        },
        pac: PacInfo {
            enable: values.flags & PROXY_TYPE_AUTO_PROXY_URL != 0,
            url: values.auto_config_url.clone(),
        },
    };
    assert(r@.servers =~= map!["http_server"@ => values.proxy_server@]);
    r
}

// ───────────────────────────── reading back what was written ─────────────────────────────

/// A value under the Internet Settings key.
pub ghost enum RegValue {
    Dword(u32),
    Text(Seq<char>),
}

/// The Internet Settings key after the writes `ops`, in order.
pub open spec fn registry_after(reg: Map<Seq<char>, RegValue>, ops: Seq<RegOpView>) -> Map<Seq<char>, RegValue>
    decreases ops.len(),
{
    if ops.len() == 0 {
        reg
    } else {
        let r = registry_after(reg, ops.drop_last());
        match ops.last() {
            RegOpView::SetDword(n, v) => r.insert(n, RegValue::Dword(v)),
            RegOpView::SetString(n, v) => r.insert(n, RegValue::Text(v)),
            RegOpView::Delete(n) => r.remove(n),
        }
    }
}

/// A DWORD value as the query reads it: 0 where it is missing.
pub open spec fn read_dword(reg: Map<Seq<char>, RegValue>, name: Seq<char>) -> u32 {
    if reg.contains_key(name) {
        match reg[name] {
            RegValue::Dword(v) => v,
            RegValue::Text(_) => 0,
        }
    } else {
        0
    }
}

/// A string value as the query reads it: empty where it is missing.
pub open spec fn read_text(reg: Map<Seq<char>, RegValue>, name: Seq<char>) -> Seq<char> {
    if reg.contains_key(name) {
        match reg[name] {
            RegValue::Text(s) => s,
            RegValue::Dword(_) => Seq::empty(),
        }
    } else {
        Seq::empty()
    }
}

/// The configuration that a query of the key reads.
pub open spec fn registry_read(reg: Map<Seq<char>, RegValue>) -> ConfigView {
    registry_config(
        read_dword(reg, "ProxyEnable"@),
        read_text(reg, "ProxyServer"@),
        read_text(reg, "ProxyOverride"@),
        read_text(reg, "AutoConfigURL"@),
    )
}

proof fn lemma_registry_names_distinct()
    ensures
        "ProxyEnable"@ != "ProxyServer"@,
        "ProxyEnable"@ != "ProxyOverride"@,
        "ProxyEnable"@ != "AutoDetect"@,
        "ProxyEnable"@ != "AutoConfigURL"@,
        "ProxyServer"@ != "ProxyOverride"@,
        "ProxyServer"@ != "AutoDetect"@,
        "ProxyServer"@ != "AutoConfigURL"@,
        "ProxyOverride"@ != "AutoDetect"@,
        "ProxyOverride"@ != "AutoConfigURL"@,
        "AutoDetect"@ != "AutoConfigURL"@,
{
    reveal_strlit("ProxyEnable");
    reveal_strlit("ProxyServer");
    reveal_strlit("ProxyOverride");
    reveal_strlit("AutoDetect");
    reveal_strlit("AutoConfigURL");
    assert("ProxyEnable"@[5] != "ProxyServer"@[5]);
    assert("ProxyEnable"@[5] != "ProxyOverride"@[5]);
    assert("ProxyEnable"@[0] != "AutoDetect"@[0]);
    assert("ProxyEnable"@[0] != "AutoConfigURL"@[0]);
    assert("ProxyServer"@[5] != "ProxyOverride"@[5]);
    assert("ProxyServer"@[0] != "AutoDetect"@[0]);
    assert("ProxyServer"@[0] != "AutoConfigURL"@[0]);
    assert("ProxyOverride"@[0] != "AutoDetect"@[0]);
    assert("ProxyOverride"@[0] != "AutoConfigURL"@[0]);
    assert("AutoDetect"@[4] != "AutoConfigURL"@[4]);
}

/// After the registry writes of setting the proxy, a registry query reads back the
/// proxy on, the server as the HTTP server, the bypass list, and the automatic
/// proxy off.
pub proof fn law_registry_reads_back_proxy(reg: Map<Seq<char>, RegValue>, proxy: Seq<char>, bypass: Seq<char>)
    ensures
        registry_read(registry_after(reg, registry_proxy_ops(proxy, bypass))) == registry_config(
            1,
            proxy,
            bypass,
            Seq::empty(),
        ),
{
    lemma_registry_names_distinct();
    let ops = registry_proxy_ops(proxy, bypass);
    reveal_with_fuel(registry_after, 6);
    assert(ops.drop_last() =~= ops.take(4));
    assert(ops.take(4).drop_last() =~= ops.take(3));
    assert(ops.take(3).drop_last() =~= ops.take(2));
    assert(ops.take(2).drop_last() =~= ops.take(1));
    assert(ops.take(1).drop_last() =~= Seq::<RegOpView>::empty());
    let r = registry_after(reg, ops);
    assert(read_dword(r, "ProxyEnable"@) == 1);
    assert(read_text(r, "ProxyServer"@) == proxy);
    assert(read_text(r, "ProxyOverride"@) == bypass);
    assert(!r.contains_key("AutoConfigURL"@));
}

/// After the registry writes of turning the proxy off, a registry query reads back
/// both the proxy and the automatic proxy off.
pub proof fn law_registry_reads_back_disabled(reg: Map<Seq<char>, RegValue>)
    ensures
        !registry_read(registry_after(reg, registry_disable_ops())).proxy_enable,
        !registry_read(registry_after(reg, registry_disable_ops())).pac_enable,
{
    lemma_registry_names_distinct();
    let ops = registry_disable_ops();
    reveal_with_fuel(registry_after, 4);
    assert(ops.drop_last() =~= ops.take(2));
    assert(ops.take(2).drop_last() =~= ops.take(1));
    assert(ops.take(1).drop_last() =~= Seq::<RegOpView>::empty());
    let r = registry_after(reg, ops);
    assert(read_dword(r, "ProxyEnable"@) == 0);
    assert(!r.contains_key("AutoConfigURL"@));
}

/// After the registry writes of turning the automatic proxy on with a URL, a
/// registry query reads back the automatic proxy on with that URL, and the manual
/// proxy off.
pub proof fn law_registry_reads_back_pac(reg: Map<Seq<char>, RegValue>, url: Seq<char>)
    requires
        url.len() > 0,
    ensures
        registry_read(registry_after(reg, registry_pac_ops(url))).pac_enable,
        registry_read(registry_after(reg, registry_pac_ops(url))).pac_url == url,
        !registry_read(registry_after(reg, registry_pac_ops(url))).proxy_enable,
{
    lemma_registry_names_distinct();
    let ops = registry_pac_ops(url);
    reveal_with_fuel(registry_after, 4);
    assert(ops.drop_last() =~= ops.take(2));
    assert(ops.take(2).drop_last() =~= ops.take(1));
    assert(ops.take(1).drop_last() =~= Seq::<RegOpView>::empty());
    let r = registry_after(reg, ops);
    assert(read_dword(r, "ProxyEnable"@) == 0);
    assert(read_text(r, "AutoConfigURL"@) == url);
}

/// What WinINet holds for a connection: flags, server, bypass list, URL.
pub type InetState = (u32, Seq<char>, Seq<char>, Seq<char>);

/// What WinINet holds for a connection after the options `opts`, in order.
pub open spec fn wininet_after(st: InetState, opts: Seq<OptionView>) -> InetState
    decreases opts.len(),
{
    if opts.len() == 0 {
        st
    } else {
        let (f, s, b, u) = wininet_after(st, opts.drop_last());
        match opts.last() {
            OptionView::Flags(x) => (x, s, b, u),
            OptionView::ProxyServer(x) => (f, x, b, u),
            OptionView::ProxyBypass(x) => (f, s, x, u),
            OptionView::AutoConfigUrl(x) => (f, s, b, x),
        }
    }
}

/// The configuration that a WinINet query of a connection reads.
pub open spec fn wininet_read(st: InetState) -> ConfigView {
    wininet_config(st.0, st.1, st.2, st.3)
}

/// After the WinINet options of setting the proxy, a query reads back the proxy on,
/// the server as the HTTP server, the bypass list, and the automatic proxy off.
pub proof fn law_wininet_reads_back_proxy(st: InetState, proxy: Seq<char>, bypass: Seq<char>)
    ensures
        wininet_read(wininet_after(st, wininet_proxy_options(proxy, bypass))) == wininet_config(
            PROXY_TYPE_PROXY,
            proxy,
            bypass,
            st.3,
        ),
        wininet_read(wininet_after(st, wininet_proxy_options(proxy, bypass))).proxy_enable,
        !wininet_read(wininet_after(st, wininet_proxy_options(proxy, bypass))).pac_enable,
{
    let o = wininet_proxy_options(proxy, bypass);
    reveal_with_fuel(wininet_after, 4);
    assert(o.drop_last() =~= o.take(2));
    assert(o.take(2).drop_last() =~= o.take(1));
    assert(o.take(1).drop_last() =~= Seq::<OptionView>::empty());
    assert(PROXY_TYPE_PROXY & PROXY_TYPE_PROXY != 0 && PROXY_TYPE_PROXY & PROXY_TYPE_AUTO_PROXY_URL == 0) by (bit_vector);
}

/// After the WinINet option of turning the proxy off, a query reads back both the
/// manual and the automatic proxy off.
pub proof fn law_wininet_reads_back_disabled(st: InetState)
    ensures
        !wininet_read(wininet_after(st, seq![OptionView::Flags(PROXY_TYPE_DIRECT)])).proxy_enable,
        !wininet_read(wininet_after(st, seq![OptionView::Flags(PROXY_TYPE_DIRECT)])).pac_enable,
{
    reveal_with_fuel(wininet_after, 2);
    assert(seq![OptionView::Flags(PROXY_TYPE_DIRECT)].drop_last() =~= Seq::<OptionView>::empty());
    assert(PROXY_TYPE_DIRECT & PROXY_TYPE_PROXY == 0 && PROXY_TYPE_DIRECT & PROXY_TYPE_AUTO_PROXY_URL == 0) by (bit_vector);
}

/// After the WinINet options of turning the automatic proxy on with a URL, a query
/// reads back the automatic proxy on with that URL and the manual proxy off.
pub proof fn law_wininet_reads_back_pac(st: InetState, url: Seq<char>)
    requires
        url.len() > 0,
    ensures
        wininet_read(wininet_after(st, wininet_pac_options(url))).pac_enable,
        wininet_read(wininet_after(st, wininet_pac_options(url))).pac_url == url,
        !wininet_read(wininet_after(st, wininet_pac_options(url))).proxy_enable,
{
    let o = wininet_pac_options(url);
    reveal_with_fuel(wininet_after, 3);
    assert(o.drop_last() =~= o.take(1));
    assert(o.take(1).drop_last() =~= Seq::<OptionView>::empty());
    assert(PROXY_TYPE_AUTO_PROXY_URL & PROXY_TYPE_PROXY == 0 && PROXY_TYPE_AUTO_PROXY_URL & PROXY_TYPE_AUTO_PROXY_URL != 0) by (bit_vector);
}

// ───────────────────────────── UTF-16 ─────────────────────────────

/// The UTF-16 code units of one character.
pub open spec fn utf16_units(c: char) -> Seq<u16> {
    let v = c as u32;
    if v < 0x10000 {
        seq![v as u16]
    } else {
        let u = v - 0x10000;
        seq![(0xD800 + u / 1024) as u16, (0xDC00 + u % 1024) as u16]
    }
}

/// The UTF-16 encoding of `s` (`str::encode_utf16`).
pub open spec fn utf16(s: Seq<char>) -> Seq<u16>
    decreases s.len(),
{
    if s.len() == 0 {
        Seq::empty()
    } else {
        utf16(s.drop_last()) + utf16_units(s.last())
    }
}

/// `s` in UTF-16, ended by a NUL unit.
pub fn to_wide_null(s: &str) -> (r: Vec<u16>)
    ensures
        r@ == utf16(s@).push(0),
{
    let v = chars_of(s);
    let mut out: Vec<u16> = Vec::new();
    let mut i: usize = 0;
    assert(v@.take(0) =~= Seq::<char>::empty());
    while i < v.len()
        invariant
            i <= v.len(),
            v@ == s@,
            out@ == utf16(v@.take(i as int)),
        decreases v.len() - i,
    {
        assert(v@.take(i + 1).drop_last() =~= v@.take(i as int));
        let c = v[i];
        let x = c as u32;
        if x < 0x10000 {
            out.push(x as u16);
        } else {
            let u = x - 0x10000;
            out.push((0xD800 + u / 1024) as u16);
            out.push((0xDC00 + u % 1024) as u16);
        }
        assert(out@ =~= utf16(v@.take(i as int)) + utf16_units(c));
        i = i + 1;
    }
    assert(v@.take(v@.len() as int) =~= v@);
    out.push(0);
    out
}

} // verus!
