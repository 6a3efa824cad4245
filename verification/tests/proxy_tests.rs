use video_smart_downloader::paths::Platform;
use video_smart_downloader::proxy::{
    parse_reg_output, parse_scutil_output, resolve_proxy, ProxyEndpoint,
};

const SCUTIL_ENABLED: &str = "<dictionary> {\n  HTTPEnable : 1\n  HTTPProxy : 127.0.0.1\n  HTTPPort : 7890\n  HTTPSEnable : 1\n  HTTPSProxy : 127.0.0.1\n  HTTPSPort : 7890\n}\n";

#[test]
fn scutil_enabled_proxy_is_detected() {
    let ep = parse_scutil_output(SCUTIL_ENABLED).unwrap();
    assert_eq!(ep.host, "127.0.0.1");
    assert_eq!(ep.port.as_deref(), Some("7890"));
    assert_eq!(ep.to_url(), "http://127.0.0.1:7890");
}

#[test]
fn scutil_disabled_proxy_is_absent() {
    let out = "<dictionary> {\n  HTTPEnable : 0\n  HTTPProxy : 127.0.0.1\n  HTTPPort : 7890\n}\n";
    assert!(parse_scutil_output(out).is_none());
}

#[test]
fn scutil_missing_port_is_absent() {
    let out = "<dictionary> {\n  HTTPEnable : 1\n  HTTPProxy : 127.0.0.1\n}\n";
    assert!(parse_scutil_output(out).is_none());
}

#[test]
fn scutil_empty_host_is_absent() {
    let out = "<dictionary> {\n  HTTPEnable : 1\n  HTTPProxy : \n  HTTPPort : 7890\n}\n";
    assert!(parse_scutil_output(out).is_none());
}

#[test]
fn reg_proxy_server_is_detected() {
    let out = "\r\nHKEY_CURRENT_USER\\Software\\Microsoft\\Windows\\CurrentVersion\\Internet Settings\r\n    ProxyServer    REG_SZ    127.0.0.1:7890\r\n\r\n";
    let ep = parse_reg_output(out).unwrap();
    assert_eq!(ep.host, "127.0.0.1:7890");
    assert!(ep.port.is_none());
    assert_eq!(ep.to_url(), "http://127.0.0.1:7890");
}

#[test]
fn reg_bare_type_tag_is_absent() {
    let out = "    ProxyServer    REG_SZ\r\n";
    assert!(parse_reg_output(out).is_none());
}

#[test]
fn reg_no_matching_line_is_absent() {
    let out = "HKEY_CURRENT_USER\\...\r\n    ProxyEnable    REG_DWORD    0x0\r\n";
    assert!(parse_reg_output(out).is_none());
}

#[test]
fn endpoint_url_without_port() {
    let ep = ProxyEndpoint { host: "proxy.example:8080".to_string(), port: None };
    assert_eq!(ep.to_url(), "http://proxy.example:8080");
}

#[test]
fn detect_none_without_native_or_environment() {
    assert!(resolve_proxy(Platform::Linux, None, None, None).is_none());
}

#[test]
fn detect_uses_http_proxy_when_only_it_is_set() {
    let r = resolve_proxy(Platform::Linux, None, Some("http://envproxy:1".to_string()), None);
    assert_eq!(r.as_deref(), Some("http://envproxy:1"));
}

#[test]
fn detect_http_proxy_precedes_https_proxy() {
    let r = resolve_proxy(
        Platform::MacOs,
        None,
        Some("http://first:1".to_string()),
        Some("http://second:2".to_string()),
    );
    assert_eq!(r.as_deref(), Some("http://first:1"));
}

#[test]
fn detect_falls_back_to_https_proxy() {
    let r = resolve_proxy(Platform::Windows, None, None, Some("http://second:2".to_string()));
    assert_eq!(r.as_deref(), Some("http://second:2"));
}

#[test]
fn detect_prefers_native_over_environment() {
    let r = resolve_proxy(
        Platform::MacOs,
        Some(SCUTIL_ENABLED),
        Some("http://envproxy:1".to_string()),
        Some("http://envproxy:2".to_string()),
    );
    assert_eq!(r.as_deref(), Some("http://127.0.0.1:7890"));
}

#[test]
fn detect_malformed_native_falls_back_to_environment() {
    let out = "<dictionary> {\n  HTTPEnable : 1\n  HTTPProxy : 127.0.0.1\n}\n";
    let r = resolve_proxy(Platform::MacOs, Some(out), Some("http://envproxy:1".to_string()), None);
    assert_eq!(r.as_deref(), Some("http://envproxy:1"));
}
