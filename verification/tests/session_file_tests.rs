use rust_rdp::config::{AppSession, Prefs};

#[test]
fn app_session_parses_multi_tab_config() {
    let input = r#"
active_tab=1
enable_hover_throttle=true
hover_send_interval_ms=500
disable_rust_log=true

[tab]
host=192.168.1.10
port=3389
username=admin
mode=RDP

[tab]
host=10.0.0.5
port=5900
username=vncuser
mode=VNC
"#;
    let session = AppSession::parse(input);
    assert_eq!(session.active_tab, 1);
    assert_eq!(session.enable_hover_throttle, true);
    assert_eq!(session.hover_send_interval_ms, 500);
    assert_eq!(session.disable_rust_log, true);
    assert_eq!(session.tabs.len(), 2);
    assert_eq!(session.tabs[0].host, "192.168.1.10");
    assert_eq!(session.tabs[0].mode, "RDP");
    assert_eq!(session.tabs[1].host, "10.0.0.5");
    assert_eq!(session.tabs[1].mode, "VNC");
}

#[test]
fn app_session_parses_legacy_single_tab_config() {
    let input = "host=192.168.1.100\nport=3389\nusername=user\nmode=RDP\n";
    let session = AppSession::parse(input);
    assert_eq!(session.active_tab, 0);
    assert_eq!(session.tabs.len(), 1);
    assert_eq!(session.tabs[0].host, "192.168.1.100");
    assert_eq!(session.tabs[0].port, "3389");
}

#[test]
fn saved_session_reads_back_unchanged() {
    let mut first = Prefs::default();
    first.host = "192.168.1.10".to_string();
    first.username = "admin".to_string();
    first.password = "p@ss=word".to_string();
    let mut second = Prefs::default();
    second.host = "10.0.0.5".to_string();
    second.port = "5900".to_string();
    second.mode = "VNC".to_string();
    second.enable_hover_throttle = true;
    second.hover_send_interval_ms = 250;
    let session = AppSession {
        active_tab: 1,
        enable_hover_throttle: true,
        hover_send_interval_ms: 750,
        disable_rust_log: true,
        tabs: vec![first, second],
    };
    let text = session.to_text();
    assert!(text.starts_with("active_tab=1\nenable_hover_throttle=true\nhover_send_interval_ms=750\n"));
    assert!(text.contains("[tab]\nhost=10.0.0.5\nport=5900\n"));
    assert_eq!(AppSession::parse(&text), session);
}

#[test]
fn session_parse_clamps_active_tab_and_keeps_one_tab() {
    let session = AppSession::parse("active_tab=7\n");
    assert_eq!(session.tabs.len(), 1);
    assert_eq!(session.active_tab, 0);
    let session = AppSession::parse("[tab]\nhost=a\n[tab]\nhost=b\n# comment\nactive_tab=1\n");
    assert_eq!(session.tabs.len(), 2);
    assert_eq!(session.active_tab, 0);
}

#[test]
fn session_reads_old_log_setting_name() {
    let session = AppSession::parse("[tab]\ndisable_frame_complete_log=true\n");
    assert!(session.tabs[0].disable_rust_log);
    let session = AppSession::parse("hover_send_interval_ms=abc\n");
    assert_eq!(session.hover_send_interval_ms, 1000);
}
