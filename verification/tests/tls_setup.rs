use std::sync::atomic::{AtomicBool, Ordering};
use std::sync::Arc;
use tokio_rustls::rustls::client::danger::{
    HandshakeSignatureValid, ServerCertVerified, ServerCertVerifier,
};
use tokio_rustls::rustls::client::ResolvesClientCert;
use tokio_rustls::rustls::crypto::{
    aws_lc_rs, verify_tls12_signature, verify_tls13_signature, CryptoProvider,
};
use tokio_rustls::rustls::pki_types::{CertificateDer, ServerName, UnixTime};
use tokio_rustls::rustls::sign::CertifiedKey;
use tokio_rustls::rustls::{
    ClientConfig, ClientConnection, DigitallySignedStruct, Error, ServerConfig, ServerConnection,
    SignatureScheme,
};
use websocket_relay::load_tls_config;
use websocket_relay::tls::{
    read_tls_material, tls_config_outcome, tls_material, FileRead, KeyFormat, PrivateKey,
    TlsError, TlsMaterial,
};
use websocket_relay::TlsConfig;

/// A certificate for the P-256 key whose number is `OWN_NUMBER`.
const CERTIFICATE: &str = "\
-----BEGIN CERTIFICATE-----
MIIBmTCCAT6gAwIBAgIUKxEbFKtgfOvHsD2xKpoBGw6qOKMwCgYIKoZIzj0EAwIw
FTETMBEGA1UEAwwKcmVsYXkudGVzdDAgFw0yNjExMTYwOTEyNDBaGA8yMTI2MTAy
MzA5MTI0MFowFTETMBEGA1UEAwwKcmVsYXkudGVzdDBZMBMGByqGSM49AgEGCCqG
SM49AwEHA0IABB4YUy/UdUwC8wQdnHXOszuD/9gax85P6ILMscmLxYlupGwxHE4v
9A3ZajZT5uRURdMt/khuztdcepDGoYiBwKOjajBoMB0GA1UdDgQWBBRmNGgG6cz7
ywLyqDefl0Ld8fQKBTAfBgNVHSMEGDAWgBRmNGgG6cz7ywLyqDefl0Ld8fQKBTAP
BgNVHRMBAf8EBTADAQH/MBUGA1UdEQQOMAyCCnJlbGF5LnRlc3QwCgYIKoZIzj0E
AwIDSQAwRgIhAN71ut2J8m3Yb+4EXje2m6acvslPYi0PKZCabQLiLUhdAiEA9chO
Emtwpipx1K/wYL8pphc3bd4nfEXOI64OXEvbbtM=
-----END CERTIFICATE-----
";

/// The number of the certificate's key, and that of another one.
const OWN_NUMBER: [u8; 32] = [7; 32];
const OTHER_NUMBER: [u8; 32] = [8; 32];

fn base64_char(value: u8) -> char {
    let code = match value {
        0..=25 => b'A' + value,
        26..=51 => b'a' + (value - 26),
        52..=61 => b'0' + (value - 52),
        62 => b'+',
        _ => b'/',
    };
    code as char
}

fn base64(bytes: &[u8]) -> String {
    let mut text = String::new();
    for chunk in bytes.chunks(3) {
        let mut group = [0u8; 3];
        group[..chunk.len()].copy_from_slice(chunk);
        let bits = (group[0] as u32) << 16 | (group[1] as u32) << 8 | group[2] as u32;
        for i in 0..4 {
            if i <= chunk.len() {
                text.push(base64_char((bits >> (18 - 6 * i) & 0x3f) as u8));
            } else {
                text.push('=');
            }
        }
    }
    text
}

/// A section of a PEM file.
fn section(label: &str, der: &[u8]) -> String {
    format!("{}-----END {label}-----\n", unended_section(label, der))
}

/// A section of a PEM file that lacks its end.
fn unended_section(label: &str, der: &[u8]) -> String {
    format!("-----BEGIN {label}-----\n{}\n", base64(der))
}

/// A P-256 key in the format of SEC 1.
fn sec1_der(number: &[u8; 32]) -> Vec<u8> {
    let mut der = vec![0x30, 0x31, 0x02, 0x01, 0x01, 0x04, 0x20];
    der.extend_from_slice(number);
    der.extend_from_slice(&[0xa0, 0x0a]);
    der.extend_from_slice(&P256);
    der
}

/// A P-256 key in the format of PKCS #8.
fn pkcs8_der(number: &[u8; 32]) -> Vec<u8> {
    let mut der = vec![0x30, 0x41, 0x02, 0x01, 0x00, 0x30, 0x13];
    der.extend_from_slice(&[0x06, 0x07, 0x2a, 0x86, 0x48, 0xce, 0x3d, 0x02, 0x01]);
    der.extend_from_slice(&P256);
    der.extend_from_slice(&[0x04, 0x27, 0x30, 0x25, 0x02, 0x01, 0x01, 0x04, 0x20]);
    der.extend_from_slice(number);
    der
}

/// The object identifier of the curve P-256.
const P256: [u8; 10] = [0x06, 0x08, 0x2a, 0x86, 0x48, 0xce, 0x3d, 0x03, 0x01, 0x07];

const SEC1_LABEL: &str = "EC PRIVATE KEY";
const PKCS8_LABEL: &str = "PRIVATE KEY";
const PKCS1_LABEL: &str = "RSA PRIVATE KEY";

fn sec1_key() -> String {
    section(SEC1_LABEL, &sec1_der(&OWN_NUMBER))
}

fn pkcs8_key() -> String {
    section(PKCS8_LABEL, &pkcs8_der(&OWN_NUMBER))
}

fn config() -> TlsConfig {
    TlsConfig {
        cert_file: "cert.pem".to_string(),
        key_file: "key.pem".to_string(),
    }
}

fn contents(pem: &str) -> FileRead {
    FileRead::Contents(pem.as_bytes().to_vec())
}

fn unreadable_behind(pem: &str) -> FileRead {
    FileRead::ReadFailed {
        read: pem.as_bytes().to_vec(),
        cause: "is a directory".to_string(),
    }
}

fn read(cert: &str, key: &str) -> Result<TlsMaterial, TlsError> {
    read_tls_material(&config(), contents(cert), contents(key))
}

#[test]
fn reads_a_certificate_and_a_key() {
    let material = read(CERTIFICATE, &sec1_key()).ok().unwrap();
    assert_eq!(material.certificates.len(), 1);
    assert_eq!(
        section("CERTIFICATE", &material.certificates[0]).replace('\n', ""),
        CERTIFICATE.replace('\n', "")
    );
    assert_eq!(material.key.format, KeyFormat::Sec1);
    assert_eq!(material.key.der, sec1_der(&OWN_NUMBER));
}

#[test]
fn reads_certificates_in_their_order() {
    let first = section("CERTIFICATE", &[1, 2, 3]);
    let second = section("CERTIFICATE", &[4, 5, 6]);
    let chain = format!("{first}{}{second}", sec1_key());
    let material = read(&chain, &pkcs8_key()).ok().unwrap();
    assert_eq!(material.certificates, vec![vec![1, 2, 3], vec![4, 5, 6]]);
    assert_eq!(material.key.format, KeyFormat::Pkcs8);
    assert_eq!(material.key.der, pkcs8_der(&OWN_NUMBER));
}

#[test]
fn first_key_counts() {
    let key = section(PKCS1_LABEL, &[1, 2, 3]);
    let keys = format!("{CERTIFICATE}{key}{}", sec1_key());
    let material = read(CERTIFICATE, &keys).ok().unwrap();
    assert_eq!(material.key.format, KeyFormat::Pkcs1);
    assert_eq!(material.key.der, vec![1, 2, 3]);
}

#[test]
fn certificate_file_without_certificates() {
    let error = read(&sec1_key(), &sec1_key()).err().unwrap();
    assert!(matches!(&error, TlsError::NoCertificates));
    assert_eq!(error.message(), "No certificates found in certificate file");
    assert_eq!(error.cause(), None);
    assert!(matches!(read("", ""), Err(TlsError::NoCertificates)));
}

#[test]
fn key_file_without_key() {
    let error = read(CERTIFICATE, CERTIFICATE).err().unwrap();
    assert!(matches!(&error, TlsError::NoPrivateKey));
    assert_eq!(error.message(), "No private key found in key file");
}

#[test]
fn broken_certificate_file() {
    let error = read(&unended_section("CERTIFICATE", &[1, 2, 3]), &sec1_key()).err().unwrap();
    assert!(matches!(&error, TlsError::ParseCertificateFile { .. }));
    assert_eq!(error.message(), "Failed to parse certificate file");
    assert!(error.cause().unwrap().contains("missing"));
}

#[test]
fn broken_key_file() {
    let error = read(CERTIFICATE, &unended_section(PKCS8_LABEL, &[1, 2, 3])).err().unwrap();
    assert!(matches!(&error, TlsError::ParseKeyFile { .. }));
    assert_eq!(error.message(), "Failed to parse private key file");
    assert!(error.cause().is_some());
}

#[test]
fn files_that_cannot_be_opened() {
    let missing = || FileRead::OpenFailed("no such file".to_string());
    let error = read_tls_material(&config(), missing(), missing()).err().unwrap();
    assert_eq!(error.message(), "Failed to open certificate file: cert.pem");
    assert_eq!(error.cause().unwrap(), "no such file");
    let error = read_tls_material(&config(), contents(""), missing()).err().unwrap();
    assert_eq!(error.message(), "Failed to open private key file: key.pem");
}

#[test]
fn files_that_cannot_be_read() {
    let unreadable = || unreadable_behind("");
    let error = read_tls_material(&config(), unreadable(), contents(&sec1_key())).err().unwrap();
    assert_eq!(error.message(), "Failed to parse certificate file");
    assert_eq!(error.cause().unwrap(), "is a directory");
    let error = read_tls_material(&config(), contents(CERTIFICATE), unreadable()).err().unwrap();
    assert_eq!(error.message(), "Failed to parse private key file");
}

#[test]
fn material_is_made_of_what_was_read() {
    let key = || {
        Ok(Some(PrivateKey {
            format: KeyFormat::Sec1,
            der: vec![9],
        }))
    };
    let material = tls_material(Ok(vec![vec![1], vec![2]]), key()).ok().unwrap();
    assert_eq!(material.certificates, vec![vec![1], vec![2]]);
    assert_eq!(material.key.der, vec![9]);
    assert!(matches!(tls_material(Ok(vec![]), key()), Err(TlsError::NoCertificates)));
    assert!(matches!(tls_material(Ok(vec![vec![1]]), Ok(None)), Err(TlsError::NoPrivateKey)));
    assert!(matches!(
        tls_material(Ok(vec![]), Err("broken".to_string())),
        Err(TlsError::NoCertificates)
    ));
    assert!(matches!(
        tls_material(Err("bad".to_string()), Err("broken".to_string())),
        Err(TlsError::ParseCertificateFile { cause }) if cause == "bad"
    ));
    assert!(matches!(
        tls_material(Ok(vec![vec![1]]), Err("broken".to_string())),
        Err(TlsError::ParseKeyFile { cause }) if cause == "broken"
    ));
}

#[test]
fn matching_certificate_and_key_make_a_configuration() {
    for key in [sec1_key(), pkcs8_key()] {
        let config = load_tls_config(&config(), contents(CERTIFICATE), contents(&key));
        assert!(config.is_ok());
    }
}

#[test]
fn key_of_another_certificate_is_refused() {
    let key = section(SEC1_LABEL, &sec1_der(&OTHER_NUMBER));
    let error = load_tls_config(&config(), contents(CERTIFICATE), contents(&key)).err().unwrap();
    assert!(matches!(&error, TlsError::ServerConfig { .. }));
    assert_eq!(error.message(), "Failed to create TLS server config");
    assert!(error.cause().unwrap().contains("KeyMismatch"));
}

#[test]
fn key_that_is_none_is_refused() {
    let key = section(PKCS8_LABEL, &[1, 2, 3]);
    let outcome = load_tls_config(&config(), contents(CERTIFICATE), contents(&key));
    assert!(matches!(outcome, Err(TlsError::ServerConfig { .. })));
}

#[test]
fn errors_in_the_files_come_before_the_configuration() {
    let outcome = load_tls_config(&config(), contents(""), contents(&sec1_key()));
    assert!(matches!(outcome, Err(TlsError::NoCertificates)));
}

#[test]
fn refusal_is_an_error_of_the_configuration() {
    let outcome = tls_config_outcome(Err("unfit".to_string()));
    assert!(matches!(outcome, Err(TlsError::ServerConfig { cause }) if cause == "unfit"));
}

#[test]
fn key_in_front_of_a_failure_counts() {
    let key_file = unreadable_behind(&format!("{}half a li", sec1_key()));
    let material = read_tls_material(&config(), contents(CERTIFICATE), key_file).ok().unwrap();
    assert_eq!(material.key.der, sec1_der(&OWN_NUMBER));
}

#[test]
fn key_whose_last_line_is_cut_off_does_not_count() {
    for key in [sec1_key().trim_end().to_string(), sec1_key()[..60].to_string()] {
        let outcome = read_tls_material(&config(), contents(CERTIFICATE), unreadable_behind(&key));
        assert!(
            matches!(outcome, Err(TlsError::ParseKeyFile { cause }) if cause == "is a directory")
        );
    }
}

#[test]
fn certificates_in_front_of_a_failure_do_not_count() {
    let outcome =
        read_tls_material(&config(), unreadable_behind(CERTIFICATE), contents(&sec1_key()));
    assert!(
        matches!(outcome, Err(TlsError::ParseCertificateFile { cause }) if cause == "is a directory")
    );
}

#[test]
fn other_sections_are_passed_over() {
    let crl = section("X509 CRL", &[7, 8, 9]);
    let unknown = section("SOMETHING ELSE", &[7, 8, 9]);
    let combined = format!("{crl}{CERTIFICATE}{unknown}{}{crl}", sec1_key());
    let plain = read(CERTIFICATE, &sec1_key()).ok().unwrap();
    let mixed = read(&combined, &combined).ok().unwrap();
    assert_eq!(mixed.certificates, plain.certificates);
    assert_eq!(mixed.key.format, plain.key.format);
    assert_eq!(mixed.key.der, plain.key.der);
    assert!(load_tls_config(&config(), contents(&combined), contents(&combined)).is_ok());
}

#[test]
fn errors_behind_the_first_key_do_not_matter() {
    let keys = format!("{}{}", sec1_key(), unended_section(PKCS8_LABEL, &[1, 2, 3]));
    assert!(read(CERTIFICATE, &keys).is_ok());
    assert!(matches!(
        read(&format!("{CERTIFICATE}{keys}"), &keys),
        Err(TlsError::ParseCertificateFile { .. })
    ));
}

#[test]
fn default_provider_is_installed() {
    let config = load_tls_config(&config(), contents(CERTIFICATE), contents(&sec1_key()));
    assert!(config.is_ok());
    assert!(CryptoProvider::get_default().is_some());
}

/// A client that takes any certificate, checks that the server holds its key, and
/// notes whether it was asked for a certificate of its own.
#[derive(Debug)]
struct Client {
    asked: AtomicBool,
}

impl ServerCertVerifier for Client {
    fn verify_server_cert(
        &self,
        _end_entity: &CertificateDer<'_>,
        _intermediates: &[CertificateDer<'_>],
        _server_name: &ServerName<'_>,
        _ocsp_response: &[u8],
        _now: UnixTime,
    ) -> Result<ServerCertVerified, Error> {
        Ok(ServerCertVerified::assertion())
    }

    fn verify_tls12_signature(
        &self,
        message: &[u8],
        cert: &CertificateDer<'_>,
        dss: &DigitallySignedStruct,
    ) -> Result<HandshakeSignatureValid, Error> {
        let algorithms = aws_lc_rs::default_provider().signature_verification_algorithms;
        verify_tls12_signature(message, cert, dss, &algorithms)
    }

    fn verify_tls13_signature(
        &self,
        message: &[u8],
        cert: &CertificateDer<'_>,
        dss: &DigitallySignedStruct,
    ) -> Result<HandshakeSignatureValid, Error> {
        let algorithms = aws_lc_rs::default_provider().signature_verification_algorithms;
        verify_tls13_signature(message, cert, dss, &algorithms)
    }

    fn supported_verify_schemes(&self) -> Vec<SignatureScheme> {
        let algorithms = aws_lc_rs::default_provider().signature_verification_algorithms;
        algorithms.supported_schemes()
    }
}

impl ResolvesClientCert for Client {
    fn resolve(
        &self,
        _root_hint_subjects: &[&[u8]],
        _sigschemes: &[SignatureScheme],
    ) -> Option<Arc<CertifiedKey>> {
        self.asked.store(true, Ordering::SeqCst);
        None
    }

    fn has_certs(&self) -> bool {
        true
    }
}

/// Performs a handshake and returns the chain that the server presented and whether
/// it asked for a client certificate.
fn handshake(server_config: ServerConfig) -> (Vec<Vec<u8>>, bool) {
    let observer = Arc::new(Client {
        asked: AtomicBool::new(false),
    });
    let client_config =
        ClientConfig::builder_with_provider(Arc::new(aws_lc_rs::default_provider()))
            .with_safe_default_protocol_versions()
            .unwrap()
            .dangerous()
            .with_custom_certificate_verifier(observer.clone())
            .with_client_cert_resolver(observer.clone());
    let name = ServerName::try_from("relay.test").unwrap();
    let mut client = ClientConnection::new(Arc::new(client_config), name).unwrap();
    let mut server = ServerConnection::new(Arc::new(server_config)).unwrap();
    while client.is_handshaking() || server.is_handshaking() {
        let mut data = Vec::new();
        while client.wants_write() {
            client.write_tls(&mut data).unwrap();
        }
        let mut unread = &data[..];
        while !unread.is_empty() {
            server.read_tls(&mut unread).unwrap();
            server.process_new_packets().unwrap();
        }
        let mut data = Vec::new();
        while server.wants_write() {
            server.write_tls(&mut data).unwrap();
        }
        let mut unread = &data[..];
        while !unread.is_empty() {
            client.read_tls(&mut unread).unwrap();
            client.process_new_packets().unwrap();
        }
    }
    let chain = client.peer_certificates().unwrap();
    (
        chain.iter().map(|certificate| certificate.to_vec()).collect(),
        observer.asked.load(Ordering::SeqCst),
    )
}

#[test]
fn configuration_presents_the_chain_and_asks_no_client_for_a_certificate() {
    let extra = section("CERTIFICATE", &[1, 2, 3]);
    let certificates = format!("{CERTIFICATE}{extra}");
    for key in [sec1_key(), pkcs8_key()] {
        let material = read(&certificates, &key).ok().unwrap();
        let server_config =
            load_tls_config(&config(), contents(&certificates), contents(&key)).ok().unwrap();
        let (chain, asked) = handshake(server_config);
        assert_eq!(chain.len(), 2);
        assert_eq!(chain, material.certificates);
        assert!(!asked);
    }
}
