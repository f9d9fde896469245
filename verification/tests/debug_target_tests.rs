use rust_rdp::debug_target::{parse_debug_target, DebugTarget};

#[test]
fn debug_target_reads_typed_lines() {
    let text = "full address:s:10.1.2.3:3390\r\nUserName:s:admin\npassword:s:pw:with:colons\ndomain:s:CORP\n\
                desktopwidth:i:1600\ndesktopheight:i:abc\nignored line\n";
    assert_eq!(
        parse_debug_target(text),
        Some(DebugTarget {
            host: "10.1.2.3".to_string(),
            port: 3390,
            username: "admin".to_string(),
            password: "pw:with:colons".to_string(),
            domain: "CORP".to_string(),
            width: 1600,
            height: 720,
        })
    );
}

#[test]
fn debug_target_keeps_default_port_and_needs_a_host() {
    let t = parse_debug_target("full address:s:host.example\n").unwrap();
    assert_eq!((t.host.as_str(), t.port, t.width), ("host.example", 3389, 1280));
    let t = parse_debug_target("full address:s:[fe80::1]:x\n").unwrap();
    assert_eq!((t.host.as_str(), t.port), ("[fe80::1]:x", 3389));
    assert_eq!(parse_debug_target("username:s:a\n"), None);
}
