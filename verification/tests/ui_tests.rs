use mitm_capture::error::ProxyError;
use mitm_capture::ui::{FilterMode, ProxyTab};

#[test]
fn error_carries_its_message() {
    let e = ProxyError::new("something failed".to_string());
    assert_eq!(e.to_string(), "something failed");
}

#[test]
fn filter_modes_are_the_nine_categories() {
    let modes = FilterMode::modes();
    assert_eq!(modes.len(), 9);
    assert_eq!(modes[0], FilterMode::NoFilter);
    assert_eq!(modes[8], FilterMode::Ws);
}

#[test]
fn tabs_are_the_six_views() {
    let tabs = ProxyTab::tabs();
    assert_eq!(tabs.len(), 6);
    assert_eq!(tabs[0], ProxyTab::Header);
    assert_eq!(tabs[5], ProxyTab::RespRaw);
}
