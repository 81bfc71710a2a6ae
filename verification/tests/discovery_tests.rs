use focus_client_rust::discovery::{is_totem_service, service_type, status_url};

#[test]
fn status_urls() {
    assert_eq!(status_url("192.168.1.40", false, 80), "http://192.168.1.40:80/status");
    assert_eq!(status_url("fe80::1", true, 8080), "http://[fe80::1]:8080/status");
    assert_eq!(status_url("10.0.0.1", false, 0), "http://10.0.0.1:0/status");
}

#[test]
fn recognises_the_totem() {
    assert!(is_totem_service("focus-totem._http._tcp.local."));
    assert!(is_totem_service("my-focus-totem-2._http._tcp.local."));
    assert!(!is_totem_service("printer._http._tcp.local."));
    assert!(!is_totem_service("focus_totem._http._tcp.local."));
}

#[test]
fn browses_http_services() {
    assert_eq!(service_type(), "_http._tcp.local.");
}
