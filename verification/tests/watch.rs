use sysproxy::error::ProxyError;
use sysproxy::options::Options;
use sysproxy::platform::linux::context::LinuxExecContext;
use sysproxy::strmap::StrMap;
use sysproxy::watch::darwin::{DarwinWatchStep, KqueueWait};
use sysproxy::watch::linux::{
    config_dir_from, gnome_monitor_commands, kde_proxy_config_path, kde_watch_target, path_join,
    wait_gnome_proxy_settings_change, wait_gsettings_schema_change,
    kde_wait_step, wait_kde_proxy_settings_change, wait_proxy_settings_change, GnomeWaitStep,
    InotifyWait, KdeWaitStep, MonitorStep, WatchBackend,
};
use sysproxy::watch::windows::{validate_registry_target, wait_outcome, wait_slice_ms, TimedWaitStep, WaitOutcome};

fn ctx(pairs: &[(&str, &str)]) -> LinuxExecContext {
    let mut m = StrMap::new();
    for (k, v) in pairs {
        m.insert(k.to_string(), v.to_string());
    }
    LinuxExecContext::from_sources(None, m, None, 0, 0, false)
}

#[test]
fn watch_backend_by_desktop() {
    assert_eq!(wait_proxy_settings_change(&ctx(&[("XDG_CURRENT_DESKTOP", "ubuntu:GNOME")])).unwrap(), WatchBackend::Gnome);
    assert_eq!(wait_proxy_settings_change(&ctx(&[("XDG_CURRENT_DESKTOP", "KDE")])).unwrap(), WatchBackend::Kde);
    assert!(matches!(wait_proxy_settings_change(&ctx(&[])), Err(ProxyError::DesktopNotSet)));
    assert!(matches!(wait_proxy_settings_change(&ctx(&[("XDG_CURRENT_DESKTOP", "LXQt")])), Err(ProxyError::UnsupportedDesktop(ref d)) if d == "LXQt"));
}

#[test]
fn gnome_monitors_every_proxy_schema() {
    let v = gnome_monitor_commands();
    assert_eq!(v.len(), 5);
    assert_eq!(v[4].program, "gsettings");
    assert_eq!(v[4].args, vec!["monitor", "org.gnome.system.proxy.socks"]);
}

#[test]
fn monitor_steps() {
    assert_eq!(wait_gsettings_schema_change(true, Some("x"), true, true), MonitorStep::Cancelled);
    assert_eq!(wait_gsettings_schema_change(false, Some("mode: 'none'\n"), false, false), MonitorStep::Changed);
    assert_eq!(wait_gsettings_schema_change(false, Some(""), true, false), MonitorStep::Exited);
    assert_eq!(wait_gsettings_schema_change(false, None, true, true), MonitorStep::ExitedCancelled);
    assert_eq!(wait_gsettings_schema_change(false, None, false, false), MonitorStep::Continue);
    assert!(matches!(wait_gnome_proxy_settings_change(true, true, None), GnomeWaitStep::Cancelled));
    assert!(matches!(wait_gnome_proxy_settings_change(false, true, Some("e".to_string())), GnomeWaitStep::Changed));
    assert!(matches!(wait_gnome_proxy_settings_change(false, false, Some("e".to_string())), GnomeWaitStep::Failed(ref m) if m == "e"));
    assert!(matches!(wait_gnome_proxy_settings_change(false, false, None), GnomeWaitStep::Continue));
}

#[test]
fn kde_config_location() {
    assert_eq!(path_join("/home/a", ".config"), "/home/a/.config");
    assert_eq!(path_join("/home/a/", ".config"), "/home/a/.config");
    assert_eq!(path_join("", ".config"), ".config");
    let p = kde_proxy_config_path(&ctx(&[("XDG_CONFIG_HOME", "/cfg"), ("HOME", "/home/a")])).unwrap();
    assert_eq!((p.dir.as_str(), p.file.as_str()), ("/cfg", "/cfg/kioslaverc"));
    let q = kde_proxy_config_path(&ctx(&[("HOME", "/home/a")])).unwrap();
    assert_eq!(q.file, "/home/a/.config/kioslaverc");
    let empty = StrMap::new();
    assert_eq!(config_dir_from(&empty, Some("/h".to_string())).unwrap(), "/h/.config");
    assert!(matches!(config_dir_from(&empty, None), Err(ProxyError::NoConfigDir)));
    let (w, dir) = kde_watch_target(&q, false);
    assert_eq!(w, "/home/a/.config");
    assert!(dir);
    let (f, dir2) = kde_watch_target(&q, true);
    assert_eq!(f, "/home/a/.config/kioslaverc");
    assert!(!dir2);
}

#[test]
fn kde_events_filter_by_name_when_watching_directory() {
    assert!(wait_kde_proxy_settings_change(false, &vec![]));
    assert!(!wait_kde_proxy_settings_change(true, &vec!["kdeglobals".to_string()]));
    assert!(wait_kde_proxy_settings_change(true, &vec!["x".to_string(), "kioslaverc".to_string()]));
}

#[test]
fn windows_wait_slices() {
    assert_eq!(wait_slice_ms(None, 5_000_000_000), Some(200));
    assert_eq!(wait_slice_ms(Some(1_000_000_000), 0), Some(200));
    assert_eq!(wait_slice_ms(Some(1_000_000_000), 950_000_000), Some(50));
    assert_eq!(wait_slice_ms(Some(1_000_000_000), 999_999_999), Some(1));
    assert_eq!(wait_slice_ms(Some(1_000_000_000), 1_000_000_000), None);
    assert_eq!(wait_outcome(258, 2, None, 0), WaitOutcome::Continue);
    assert_eq!(wait_outcome(258, 2, Some(10), 10), WaitOutcome::TimedOut);
    assert_eq!(wait_outcome(1, 2, None, 0), WaitOutcome::Changed);
    assert_eq!(wait_outcome(0xFFFF_FFFF, 2, None, 0), WaitOutcome::Failed(0xFFFF_FFFF));
    let mut o = Options::default();
    o.device = "x".to_string();
    assert!(validate_registry_target(Some(&o)).is_ok());
    o.use_registry = true;
    assert!(matches!(validate_registry_target(Some(&o)), Err(ProxyError::RegistryDeviceUnsupported)));
}

#[test]
fn darwin_watch_steps() {
    assert!(matches!(sysproxy::watch::darwin::wait_proxy_settings_change(false, None), DarwinWatchStep::Wait));
    assert!(matches!(sysproxy::watch::darwin::wait_proxy_settings_change(true, None), DarwinWatchStep::Cancelled));
    assert!(matches!(sysproxy::watch::darwin::wait_proxy_settings_change(true, Some(KqueueWait::Events)), DarwinWatchStep::Changed));
    assert!(matches!(sysproxy::watch::darwin::wait_proxy_settings_change(false, Some(KqueueWait::Interrupted)), DarwinWatchStep::Wait));
    assert!(matches!(sysproxy::watch::darwin::wait_proxy_settings_change(true, Some(KqueueWait::Interrupted)), DarwinWatchStep::Cancelled));
    assert!(matches!(
        sysproxy::watch::darwin::wait_proxy_settings_change(false, Some(KqueueWait::TimedOut { file_present: true })),
        DarwinWatchStep::Wait
    ));
    assert!(matches!(
        sysproxy::watch::darwin::wait_proxy_settings_change(false, Some(KqueueWait::TimedOut { file_present: false })),
        DarwinWatchStep::PreferencesMissing
    ));
    match sysproxy::watch::darwin::wait_proxy_settings_change(false, Some(KqueueWait::Failed("EBADF".to_string()))) {
        DarwinWatchStep::WaitFailed(m) => assert_eq!(m, "EBADF"),
        other => panic!("{:?}", other),
    }
}

#[test]
fn windows_timed_wait_steps() {
    let step = sysproxy::watch::windows::wait_proxy_settings_change_timeout;
    assert_eq!(step(true, None, None, 0), TimedWaitStep::Cancelled);
    assert_eq!(step(false, None, None, 0), TimedWaitStep::Wait(200));
    assert_eq!(step(false, None, Some(0), 0), TimedWaitStep::TimedOut);
    assert_eq!(step(false, None, Some(50_000_000), 0), TimedWaitStep::Wait(50));
    assert_eq!(step(true, Some(WaitOutcome::Changed), None, 0), TimedWaitStep::Changed);
    assert_eq!(step(true, Some(WaitOutcome::Continue), None, 0), TimedWaitStep::Cancelled);
    assert_eq!(step(false, Some(WaitOutcome::TimedOut), Some(1), 5), TimedWaitStep::TimedOut);
    assert_eq!(step(false, Some(WaitOutcome::Failed(300)), None, 0), TimedWaitStep::Failed(300));
}

#[test]
fn kde_wait_steps() {
    assert!(matches!(kde_wait_step(true, None, false), KdeWaitStep::Cancelled));
    assert!(matches!(kde_wait_step(false, None, false), KdeWaitStep::Wait));
    assert!(matches!(kde_wait_step(true, Some(InotifyWait::Events(vec![])), false), KdeWaitStep::Changed));
    assert!(matches!(
        kde_wait_step(false, Some(InotifyWait::Events(vec!["other".to_string()])), true),
        KdeWaitStep::Wait
    ));
    assert!(matches!(
        kde_wait_step(true, Some(InotifyWait::Events(vec!["other".to_string()])), true),
        KdeWaitStep::Cancelled
    ));
    assert!(matches!(
        kde_wait_step(false, Some(InotifyWait::Events(vec!["kioslaverc".to_string()])), true),
        KdeWaitStep::Changed
    ));
    assert!(matches!(kde_wait_step(false, Some(InotifyWait::TimedOut), true), KdeWaitStep::Wait));
    assert!(matches!(kde_wait_step(false, Some(InotifyWait::Interrupted), true), KdeWaitStep::Wait));
    match kde_wait_step(false, Some(InotifyWait::ReadFailed("EIO".to_string())), true) {
        KdeWaitStep::ReadFailed(m) => assert_eq!(m, "EIO"),
        other => panic!("{:?}", other),
    }
    match kde_wait_step(true, Some(InotifyWait::Failed("EBADF".to_string())), true) {
        KdeWaitStep::WaitFailed(m) => assert_eq!(m, "EBADF"),
        other => panic!("{:?}", other),
    }
}
