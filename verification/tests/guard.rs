use sysproxy::guard::{
    apply_guard_proxy_settings, guard_proxy_settings, guard_proxy_settings_after_apply,
    watch_options, GuardAction, GuardApply, GuardEvent, GuardState,
};
use sysproxy::options::{default_concurrent, resolve_concurrent, Options, Platform};

#[test]
fn guard_applies_pac_when_url_given() {
    assert_eq!(apply_guard_proxy_settings(None), GuardApply::Proxy);
    let mut o = Options::default();
    o.proxy = "127.0.0.1:7890".to_string();
    assert_eq!(apply_guard_proxy_settings(Some(&o)), GuardApply::Proxy);
    o.pac_url = "http://127.0.0.1:10000/pac".to_string();
    assert_eq!(apply_guard_proxy_settings(Some(&o)), GuardApply::Pac);
}

#[test]
fn guard_cycle_restores_after_change() {
    let mut o = Options::default();
    o.pac_url = "http://x/pac".to_string();
    let (mut g, first) = guard_proxy_settings(Some(&o));
    assert_eq!(first, GuardAction::Apply(GuardApply::Pac));
    assert_eq!(g.step(GuardEvent::Applied), GuardAction::Wait);
    assert_eq!(g.state, GuardState::Watching);
    assert_eq!(g.step(GuardEvent::Changed), GuardAction::Apply(GuardApply::Pac));
    assert_eq!(g.step(GuardEvent::Applied), GuardAction::Wait);
    assert_eq!(g.step(GuardEvent::Changed), GuardAction::Apply(GuardApply::Pac));
    assert_eq!(g.apply, GuardApply::Pac);
}

#[test]
fn guard_stops_on_failure() {
    let (mut g, first) = guard_proxy_settings_after_apply(None);
    assert_eq!(first, GuardAction::Wait);
    assert_eq!(g.step(GuardEvent::WaitFailed), GuardAction::ReturnError);
    assert_eq!(g.state, GuardState::Done);
    assert_eq!(g.step(GuardEvent::Changed), GuardAction::ReturnError);
    let (mut h, _) = guard_proxy_settings(None);
    assert_eq!(h.step(GuardEvent::ApplyFailed), GuardAction::ReturnError);
    assert_eq!(h.state, GuardState::Done);
}

#[test]
fn watch_options_keep_target_and_identity_only() {
    let mut o = Options::default();
    o.proxy = "p:1".to_string();
    o.bypass = "b".to_string();
    o.pac_url = "u".to_string();
    o.device = "Wi-Fi".to_string();
    o.only_active_device = true;
    o.peer_pid = 9;
    o.peer_uid = 10;
    o.peer_gid = 11;
    o.environment = vec!["A=1".to_string()];
    o.concurrent = Some(true);
    o.use_registry = true;
    let w = watch_options(Some(&o)).unwrap();
    assert_eq!((w.proxy.as_str(), w.bypass.as_str(), w.pac_url.as_str()), ("", "", ""));
    assert_eq!(w.device, "Wi-Fi");
    assert!(w.only_active_device && w.use_registry);
    assert_eq!((w.peer_pid, w.peer_uid, w.peer_gid), (9, 10, 11));
    assert_eq!(w.environment, vec!["A=1".to_string()]);
    assert_eq!(w.concurrent, None);
    assert!(watch_options(None).is_none());
}

#[test]
fn concurrency_defaults() {
    assert!(default_concurrent(Platform::MacOs));
    assert!(!default_concurrent(Platform::Linux));
    assert!(!default_concurrent(Platform::Windows));
    assert!(resolve_concurrent(None, Platform::MacOs));
    let mut o = Options::default();
    assert!(!resolve_concurrent(Some(&o), Platform::Linux));
    o.concurrent = Some(true);
    assert!(resolve_concurrent(Some(&o), Platform::Linux));
    o.concurrent = Some(false);
    assert!(!resolve_concurrent(Some(&o), Platform::MacOs));
}

#[test]
fn law_guard_restores_every_change_example() {
    let mut o = Options::default();
    o.proxy = "127.0.0.1:7890".to_string();
    let (mut g, first) = guard_proxy_settings_after_apply(Some(&o));
    assert_eq!(first, GuardAction::Wait);
    for _ in 0..3 {
        assert_eq!(g.step(GuardEvent::Changed), GuardAction::Apply(GuardApply::Proxy));
        assert_eq!(g.step(GuardEvent::Applied), GuardAction::Wait);
        assert_eq!(g.state, GuardState::Watching);
    }
}
