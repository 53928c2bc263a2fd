use websocket_relay::address::IpAddr;
use websocket_relay::relay::RelayError;
use websocket_relay::request::RequestInfo;
use websocket_relay::session::{CloseReason, ConnectionError, SessionEvent, Stage};
use websocket_relay::{Config, ListenConfig, TargetConfig, Targets, TlsConfig};

fn target(host: &str, port: u16) -> TargetConfig {
    TargetConfig {
        host: host.to_string(),
        port,
    }
}

fn targets() -> Targets {
    let mut targets = Targets::new();
    targets.insert("domain1.test".to_string(), target("127.0.0.1", 8081));
    targets.insert("domain2.test".to_string(), target("backend", 65535));
    targets.insert("example.com:8080".to_string(), target("::1", 0));
    targets
}

fn listen(allowed: Option<Vec<&str>>, tls: bool) -> ListenConfig {
    ListenConfig {
        ip: "0.0.0.0".to_string(),
        port: 80,
        allowed_proxy_ips: allowed
            .map(|list| list.into_iter().map(|entry| entry.to_string()).collect()),
        tls: if tls {
            Some(TlsConfig {
                cert_file: "cert.pem".to_string(),
                key_file: "key.pem".to_string(),
            })
        } else {
            None
        },
    }
}

fn request(host: Option<&str>) -> RequestInfo {
    RequestInfo {
        host: host.map(|host| host.to_string()),
        client_ip: Some("203.0.113.195".to_string()),
    }
}

const LOCALHOST: IpAddr = IpAddr::V4(0x7f00_0001);

#[test]
fn addresses_are_written_with_their_port() {
    assert_eq!(listen(None, false).address(), "0.0.0.0:80");
    assert_eq!(target("example.com", 0).address(), "example.com:0");
    assert_eq!(target("example.com", 9).address(), "example.com:9");
    assert_eq!(target("example.com", 10).address(), "example.com:10");
    assert_eq!(target("", 8080).address(), ":8080");
    for port in 0..=u16::MAX {
        assert_eq!(target("h", port).address(), format!("h:{port}"));
    }
}

#[test]
fn targets_are_found_by_domain() {
    let config = Config {
        listen: listen(None, false),
        targets: targets(),
    };
    assert_eq!(config.targets.len(), 3);
    assert_eq!(config.targets.get("domain1.test").unwrap().port, 8081);
    assert_eq!(config.targets.get("domain2.test").unwrap().clone().host, "backend");
    assert!(config.targets.get("Domain1.test").is_none());
    assert!(config.targets.get("").is_none());
}

#[test]
fn later_target_of_a_domain_counts() {
    let mut targets = targets();
    targets.insert("domain1.test".to_string(), target("other", 1));
    assert_eq!(targets.len(), 3);
    let stage = Stage::route(request(Some("domain1.test")), &targets);
    assert!(matches!(stage, Stage::Connect { address, .. } if address == "other:1"));
    let stage = Stage::route(request(Some("domain2.test")), &targets);
    assert!(matches!(stage, Stage::Connect { address, .. } if address == "backend:65535"));
}

#[test]
fn proxies_are_admitted_without_a_list() {
    assert!(matches!(
        Stage::begin(&listen(None, false), LOCALHOST),
        Stage::AcceptWebSocket
    ));
    assert!(matches!(Stage::begin(&listen(None, true), LOCALHOST), Stage::AcceptTls));
}

#[test]
fn proxies_on_the_list_are_admitted() {
    for entry in ["127.0.0.1", "127.0.0.0/8"] {
        assert!(matches!(
            Stage::begin(&listen(Some(vec![entry]), false), LOCALHOST),
            Stage::AcceptWebSocket
        ));
    }
}

#[test]
fn other_proxies_are_rejected() {
    let stage = Stage::begin(&listen(Some(vec!["192.168.1.100"]), true), LOCALHOST);
    assert!(matches!(&stage, Stage::Closed(CloseReason::ProxyNotAllowed)));
    let stage = stage.next(SessionEvent::TlsAccepted, &targets());
    assert!(matches!(stage, Stage::Closed(CloseReason::ProxyNotAllowed)));
}

#[test]
fn unreadable_list_rejects() {
    let stage = Stage::begin(&listen(Some(vec!["nonsense"]), false), LOCALHOST);
    match stage {
        Stage::Closed(CloseReason::InvalidAllowList(error)) => assert_eq!(error.entry, "nonsense"),
        _ => panic!("not rejected"),
    }
}

#[test]
fn different_domains_go_to_different_targets() {
    let targets = targets();
    for (domain, expected) in [
        ("domain1.test", "127.0.0.1:8081"),
        ("domain2.test", "backend:65535"),
        ("example.com:8080", "::1:0"),
    ] {
        match Stage::AcceptWebSocket.next(SessionEvent::Upgraded(request(Some(domain))), &targets)
        {
            Stage::Connect { address, client_ip } => {
                assert_eq!(address, expected);
                assert_eq!(client_ip.as_deref(), Some("203.0.113.195"));
            }
            _ => panic!("not routed"),
        }
    }
}

#[test]
fn unknown_domains_are_rejected() {
    for domain in ["unknown-domain.test", "example.com", "DOMAIN1.test", "domain1.test:80", ""] {
        match Stage::route(request(Some(domain)), &targets()) {
            Stage::Closed(CloseReason::Failed(error)) => {
                assert_eq!(
                    error.message(),
                    format!("No target configured for domain: {domain}")
                );
            }
            _ => panic!("not rejected"),
        }
    }
}

#[test]
fn requests_without_a_host_are_rejected() {
    match Stage::route(request(None), &targets()) {
        Stage::Closed(CloseReason::Failed(error)) => {
            assert!(matches!(&error, ConnectionError::NoHostHeader));
            assert_eq!(error.message(), "No Host header found in request");
        }
        _ => panic!("not rejected"),
    }
}

#[test]
fn a_connection_runs_its_course() {
    let targets = targets();
    let stage = Stage::begin(&listen(None, true), LOCALHOST);
    let stage = stage.next(SessionEvent::TlsAccepted, &targets);
    assert!(matches!(stage, Stage::AcceptWebSocket));
    let stage = stage.next(SessionEvent::Upgraded(request(Some("domain1.test"))), &targets);
    assert!(matches!(stage, Stage::Connect { .. }));
    let stage = stage.next(SessionEvent::Connected, &targets);
    assert!(
        matches!(&stage, Stage::Relay { client_ip } if client_ip.as_deref() == Some("203.0.113.195"))
    );
    let stage = stage.next(SessionEvent::RelayEnded(Ok(())), &targets);
    assert!(matches!(stage, Stage::Closed(CloseReason::Finished)));
    let stage = stage.next(SessionEvent::Connected, &targets);
    assert!(matches!(stage, Stage::Closed(CloseReason::Finished)));
}

#[test]
fn failures_close_the_connection() {
    let targets = targets();
    let stage = Stage::AcceptTls.next(SessionEvent::TlsFailed, &targets);
    assert!(matches!(stage, Stage::Closed(CloseReason::TlsHandshakeFailed)));

    let stage = Stage::AcceptWebSocket.next(SessionEvent::UpgradeFailed, &targets);
    match stage {
        Stage::Closed(CloseReason::Failed(error)) => {
            assert_eq!(error.message(), "Failed to perform WebSocket handshake");
        }
        _ => panic!("not closed"),
    }

    let stage = Stage::route(request(Some("domain1.test")), &targets);
    match stage.next(SessionEvent::ConnectFailed, &targets) {
        Stage::Closed(CloseReason::Failed(error)) => {
            assert_eq!(error.message(), "Failed to connect to target 127.0.0.1:8081");
        }
        _ => panic!("not closed"),
    }

    let stage = Stage::Relay { client_ip: None };
    match stage.next(SessionEvent::RelayEnded(Err(RelayError::TcpWrite)), &targets) {
        Stage::Closed(CloseReason::Failed(error)) => {
            assert_eq!(error.message(), "Failed to write WebSocket data to TCP connection");
        }
        _ => panic!("not closed"),
    }
}

#[test]
fn stages_cannot_be_skipped() {
    let targets = targets();
    let stage = Stage::AcceptTls.next(
        SessionEvent::Upgraded(request(Some("domain1.test"))),
        &targets,
    );
    assert!(matches!(stage, Stage::AcceptTls));
    let stage = Stage::AcceptWebSocket.next(SessionEvent::Connected, &targets);
    assert!(matches!(stage, Stage::AcceptWebSocket));
}

#[test]
fn first_stage_follows_the_verdict() {
    assert!(matches!(Stage::first(Ok(true), false), Stage::AcceptWebSocket));
    assert!(matches!(Stage::first(Ok(true), true), Stage::AcceptTls));
    assert!(matches!(
        Stage::first(Ok(false), true),
        Stage::Closed(CloseReason::ProxyNotAllowed)
    ));
}
