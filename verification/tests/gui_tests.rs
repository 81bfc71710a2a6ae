use focus_client_rust::gui_model::{render_status, AppStatus, WindowAction, WindowModel};

#[test]
fn window_starts_searching() {
    let mut w = WindowModel::new();
    assert!(matches!(w.status, AppStatus::Searching));
    assert!(w.begin_round());
    assert_eq!(render_status(&w.status), (0x3B82F6, "SEARCHING", "Looking for Focus Totem..."));
}

#[test]
fn discovery_then_focus_on_activates_once() {
    let mut w = WindowModel::new();
    w.on_discovery(None);
    assert!(w.address.is_none());
    w.on_discovery(Some("http://10.0.0.5:80/status".to_string()));
    assert!(matches!(&w.status, AppStatus::Connected(a) if a == "http://10.0.0.5:80/status"));
    assert!(!w.begin_round());
    assert_eq!(w.on_reply("FOCUS_OFF"), WindowAction::Nothing);
    assert_eq!(w.on_reply("FOCUS_ON"), WindowAction::Activate);
    assert_eq!(render_status(&w.status).1, "FOCUS ACTIVE");
    assert_eq!(w.on_reply("FOCUS_ON"), WindowAction::Nothing);
}

#[test]
fn request_error_deactivates_and_forgets() {
    let mut w = WindowModel::new();
    w.on_discovery(Some("a".to_string()));
    assert_eq!(w.on_request_error(), WindowAction::Nothing);
    w.on_discovery(Some("a".to_string()));
    w.on_reply("FOCUS_ON");
    assert_eq!(w.on_request_error(), WindowAction::Deactivate);
    assert!(w.address.is_none());
    assert_eq!(render_status(&w.status), (0xEF4444, "DISCONNECTED", "Lost connection to Totem."));
}
