use rust_rdp::config::Prefs;

fn form(host: &str, port: &str, mode: &str) -> Prefs {
    let mut p = Prefs::default();
    p.host = host.to_string();
    p.port = port.to_string();
    p.mode = mode.to_string();
    p
}

#[test]
fn readme_connection_file_opens() {
    let text = "full address:s:192.168.1.10:3389\nusername:s:user\npassword:s:secret\ndomain:s:WORKGROUP\nconnection mode:s:RDP\ndesktopwidth:i:1920\ndesktopheight:i:1080\n";
    let p = Prefs::parse_connection_file(text, Some("rdp"), &Prefs::default()).unwrap();
    assert_eq!(p.host, "192.168.1.10");
    assert_eq!(p.port, "3389");
    assert_eq!(p.username, "user");
    assert_eq!(p.password, "secret");
    assert_eq!(p.domain, "WORKGROUP");
    assert_eq!(p.mode, "RDP");
    assert_eq!(p.width, "1920");
    assert_eq!(p.height, "1080");
}

#[test]
fn saved_connection_file_opens_as_the_same_form() {
    let mut p = form("server.example", "3390", "RDP");
    p.username = "alice".to_string();
    p.password = "s3cr:t".to_string();
    p.domain = "CORP".to_string();
    p.width = "1280".to_string();
    p.height = "".to_string();
    let mut base = Prefs::default();
    base.height = "900".to_string();
    let text = p.to_connection_file();
    let q = Prefs::parse_connection_file(&text, Some("vnc"), &base).unwrap();
    assert_eq!(q.host, p.host);
    assert_eq!(q.port, p.port);
    assert_eq!(q.username, p.username);
    assert_eq!(q.password, p.password);
    assert_eq!(q.domain, p.domain);
    assert_eq!(q.mode, "RDP");
    assert_eq!(q.width, "1280");
    assert_eq!(q.height, "900");
}

#[test]
fn connection_file_text_is_android_compatible() {
    let mut p = form("  10.0.0.5 ", " 5901 ", "VNC");
    p.width = " 800 ".to_string();
    let text = p.to_connection_file();
    assert_eq!(
        text,
        "full address:s:10.0.0.5:5901\nconnection mode:s:VNC\ndesktopwidth:i:800\ndesktopheight:i:1080\n"
    );
}

#[test]
fn mode_comes_from_extension_when_missing() {
    let p = Prefs::parse_connection_file("full address:s:host.local\n", Some("VNC"), &Prefs::default()).unwrap();
    assert_eq!(p.mode, "VNC");
    assert_eq!(p.port, "5900");
    let p = Prefs::parse_connection_file("full address:s:host.local\n", None, &Prefs::default()).unwrap();
    assert_eq!(p.mode, "RDP");
    assert_eq!(p.port, "3389");
}

#[test]
fn file_without_host_is_rejected() {
    let r = Prefs::parse_connection_file("username:s:bob\n", Some("rdp"), &Prefs::default());
    assert_eq!(r, Err("File has no host (full address)".to_string()));
}

#[test]
fn equals_style_lines_and_comments_are_read() {
    let text = "# saved by hand\r\nhost=example.org\r\nport=3391\r\n// note\r\nmode=RDP\r\n";
    let p = Prefs::parse_connection_file(text, None, &Prefs::default()).unwrap();
    assert_eq!(p.host, "example.org");
    assert_eq!(p.port, "3391");
}

#[test]
fn non_numeric_port_falls_back_to_default() {
    let p = Prefs::parse_connection_file("full address:s:[fe80::1]:abc\nmode:s:vnc\n", None, &Prefs::default())
        .unwrap();
    assert_eq!(p.host, "[fe80::1]:abc");
    assert_eq!(p.port, "5900");
    assert_eq!(p.mode, "VNC");
}

#[test]
fn file_names_and_extensions() {
    let p = form("my host/1", "3389", "RDP");
    assert_eq!(p.file_extension(), "rdp");
    assert_eq!(p.default_filename(), "my_host_1.rdp");
    assert!(p.keeps_extension(Some("RDP")));
    assert!(!p.keeps_extension(Some("txt")));
    assert!(!p.keeps_extension(None));
    let v = form("", "5900", "vnc");
    assert_eq!(v.file_extension(), "vnc");
    assert_eq!(v.endpoint_label(), "\u{2014}");
    assert_eq!(p.endpoint_label(), "my host/1:3389");
}
