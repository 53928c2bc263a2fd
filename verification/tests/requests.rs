use tokio_tungstenite::tungstenite::http::{HeaderMap, HeaderName, HeaderValue};
use websocket_relay::request::RequestInfo;

fn headers(fields: &[(&'static str, &[u8])]) -> HeaderMap {
    let mut map = HeaderMap::new();
    for (name, value) in fields {
        map.append(
            HeaderName::from_bytes(name.as_bytes()).unwrap(),
            HeaderValue::from_bytes(value).unwrap(),
        );
    }
    map
}

#[test]
fn reads_host_and_client() {
    let info = RequestInfo::read(&headers(&[
        ("Host", b"example.com:8080"),
        ("X-Forwarded-For", b"203.0.113.195, 192.168.1.1"),
        ("Upgrade", b"websocket"),
    ]));
    assert_eq!(info.host.as_deref(), Some("example.com:8080"));
    assert_eq!(info.client_ip.as_deref(), Some("203.0.113.195"));
}

#[test]
fn missing_headers_are_absent() {
    let info = RequestInfo::read(&headers(&[("Upgrade", b"websocket")]));
    assert_eq!(info.host, None);
    assert_eq!(info.client_ip, None);
}

#[test]
fn first_value_counts() {
    let info = RequestInfo::read(&headers(&[
        ("x-forwarded-for", b"10.0.0.1"),
        ("host", b"first.test"),
        ("x-forwarded-for", b"10.0.0.2"),
        ("host", b"second.test"),
    ]));
    assert_eq!(info.host.as_deref(), Some("first.test"));
    assert_eq!(info.client_ip.as_deref(), Some("10.0.0.1"));
}

#[test]
fn values_beyond_visible_ascii_are_ignored() {
    let info = RequestInfo::read(&headers(&[
        ("host", b"ex\xffample.com"),
        ("x-forwarded-for", b"10.0.0.1\x80"),
    ]));
    assert_eq!(info.host, None);
    assert_eq!(info.client_ip, None);
}

#[test]
fn tabs_and_blanks_are_visible() {
    let info = RequestInfo::read(&headers(&[
        ("host", b"a\tb c"),
        ("x-forwarded-for", b"\t10.0.0.1\t"),
    ]));
    assert_eq!(info.host.as_deref(), Some("a\tb c"));
    assert_eq!(info.client_ip.as_deref(), Some("10.0.0.1"));
}

#[test]
fn empty_host_is_a_host() {
    let info = RequestInfo::read(&headers(&[("host", b""), ("x-forwarded-for", b" ,10.0.0.1")]));
    assert_eq!(info.host.as_deref(), Some(""));
    assert_eq!(info.client_ip, None);
}

#[test]
fn header_texts_make_a_request() {
    let info = RequestInfo::from_headers(Some("a.test".to_string()), Some(" c ,d".to_string()));
    assert_eq!(info.host.as_deref(), Some("a.test"));
    assert_eq!(info.client_ip.as_deref(), Some("c"));
    let info = RequestInfo::from_headers(None, None);
    assert_eq!(info.host, None);
    assert_eq!(info.client_ip, None);
}

#[test]
fn log_names_the_original_client() {
    let info = RequestInfo::from_headers(None, Some("203.0.113.195".to_string()));
    let client = info.logged_client("127.0.0.1:5000");
    assert_eq!(client.client_ip, "203.0.113.195");
    assert_eq!(client.direct_addr.as_deref(), Some("127.0.0.1:5000"));
}

#[test]
fn log_names_the_peer_where_no_client_is_known() {
    let info = RequestInfo::from_headers(None, None);
    let client = info.logged_client("127.0.0.1:5000");
    assert_eq!(client.client_ip, "127.0.0.1:5000");
    assert_eq!(client.direct_addr, None);
}
