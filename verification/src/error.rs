//! The ways in which an operation of the library fails.
use vstd::prelude::*;

use crate::text::{str_concat, to_string};

verus! {

/// Why an operation failed.
#[derive(Debug)]
pub enum ProxyError {
    /// `XDG_CURRENT_DESKTOP` is not set.
    DesktopNotSet,
    /// The desktop is neither KDE nor a GNOME-like one.
    UnsupportedDesktop(String),
    /// The operating system has no proxy backend.
    UnsupportedOs,
    /// The proxy address has no host or no port.
    InvalidProxyAddress(String),
    /// `networksetup` printed nothing.
    EmptyToolOutput,
    /// A tool reported failure, with what it printed on its error stream.
    ToolFailed(String),
    /// No network service matched.
    NoNetworkServices,
    /// The registry backend cannot act on one named device.
    RegistryDeviceUnsupported,
    /// No configuration directory could be found.
    NoConfigDir,
    /// Waiting was cancelled.
    Cancelled,
}

/// The message of each error.
pub open spec fn error_message(e: ProxyError) -> Seq<char> {
    match e {
        ProxyError::DesktopNotSet => "XDG_CURRENT_DESKTOP environment variable not set"@,
        ProxyError::UnsupportedDesktop(d) => "不支持的桌面："@ + d@,
        ProxyError::UnsupportedOs => "不支持的操作系统"@,
        ProxyError::InvalidProxyAddress(p) => "invalid proxy address: "@ + p@,
        ProxyError::EmptyToolOutput => "networksetup 命令没有输出"@,
        ProxyError::ToolFailed(s) => "networksetup 命令失败："@ + s@,
        ProxyError::NoNetworkServices => "未找到活跃的网络服务"@,
        ProxyError::RegistryDeviceUnsupported => "注册表模式不支持指定网络设备"@,
        ProxyError::NoConfigDir => "无法获取用户配置目录"@,
        ProxyError::Cancelled => "cancelled"@,
    }
}

impl ProxyError {
    /// The message that reports this error.
    pub fn message(&self) -> (r: String)
        ensures
            r@ == error_message(*self),
    {
        match self {
            ProxyError::DesktopNotSet => to_string("XDG_CURRENT_DESKTOP environment variable not set"),
            ProxyError::UnsupportedDesktop(d) => str_concat("不支持的桌面：", d.as_str()),
            ProxyError::UnsupportedOs => to_string("不支持的操作系统"),
            ProxyError::InvalidProxyAddress(p) => str_concat("invalid proxy address: ", p.as_str()),
            ProxyError::EmptyToolOutput => to_string("networksetup 命令没有输出"),
            ProxyError::ToolFailed(s) => str_concat("networksetup 命令失败：", s.as_str()),
            ProxyError::NoNetworkServices => to_string("未找到活跃的网络服务"),
            ProxyError::RegistryDeviceUnsupported => to_string("注册表模式不支持指定网络设备"),
            ProxyError::NoConfigDir => to_string("无法获取用户配置目录"),
            ProxyError::Cancelled => to_string("cancelled"),
        }
    }
}

} // verus!
