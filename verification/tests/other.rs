use sysproxy::error::ProxyError;
use sysproxy::options::Options;
use sysproxy::platform::other::{disable_proxy, query_proxy_settings, set_pac, set_proxy};

#[test]
fn other_systems_are_unsupported() {
    let o = Options::default();
    assert!(matches!(disable_proxy(Some(&o)), Err(ProxyError::UnsupportedOs)));
    assert!(matches!(set_proxy(None), Err(ProxyError::UnsupportedOs)));
    assert!(matches!(set_pac(Some(&o)), Err(ProxyError::UnsupportedOs)));
    assert!(matches!(query_proxy_settings(None), Err(ProxyError::UnsupportedOs)));
}

#[test]
fn error_messages_name_the_failure() {
    assert_eq!(ProxyError::DesktopNotSet.message(), "XDG_CURRENT_DESKTOP environment variable not set");
    assert_eq!(ProxyError::UnsupportedDesktop("XFCE".to_string()).message(), "不支持的桌面：XFCE");
    assert_eq!(ProxyError::UnsupportedOs.message(), "不支持的操作系统");
    assert_eq!(ProxyError::InvalidProxyAddress("h".to_string()).message(), "invalid proxy address: h");
    assert_eq!(ProxyError::EmptyToolOutput.message(), "networksetup 命令没有输出");
    assert_eq!(ProxyError::ToolFailed("boom".to_string()).message(), "networksetup 命令失败：boom");
    assert_eq!(ProxyError::NoNetworkServices.message(), "未找到活跃的网络服务");
    assert_eq!(ProxyError::RegistryDeviceUnsupported.message(), "注册表模式不支持指定网络设备");
    assert_eq!(ProxyError::NoConfigDir.message(), "无法获取用户配置目录");
    assert_eq!(ProxyError::Cancelled.message(), "cancelled");
}
