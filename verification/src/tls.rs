//! The server's certificate chain and private key.

use crate::config::TlsConfig;
use std::sync::Arc;
use tokio_rustls::rustls::crypto::{aws_lc_rs, CryptoProvider};
use tokio_rustls::rustls::pki_types::{CertificateDer, PrivateKeyDer};
use tokio_rustls::rustls::ServerConfig;
use vstd::prelude::*;
use vstd::string::StringExecFns;

verus! {

/// What came of opening and reading a file.
pub enum FileRead {
    Contents(Vec<u8>),
    /// The file could not be opened, for this reason.
    OpenFailed(String),
    /// The file was opened, and reading it failed behind these bytes, for this
    /// reason.
    ReadFailed { read: Vec<u8>, cause: String },
}

/// The encoding of a private key.
#[derive(Clone, Copy, Debug, PartialEq, Eq, Structural)]
pub enum KeyFormat {
    Pkcs1,
    Sec1,
    Pkcs8,
}

/// A private key in DER.
pub struct PrivateKey {
    pub format: KeyFormat,
    pub der: Vec<u8>,
}

/// A certificate chain, in DER, and the private key that belongs to it.
pub struct TlsMaterial {
    pub certificates: Vec<Vec<u8>>,
    pub key: PrivateKey,
}

/// Why TLS could not be set up.
#[derive(Debug)]
pub enum TlsError {
    OpenCertificateFile { path: String, cause: String },
    OpenKeyFile { path: String, cause: String },
    ParseCertificateFile { cause: String },
    NoCertificates,
    ParseKeyFile { cause: String },
    NoPrivateKey,
    ServerConfig { cause: String },
}

impl TlsError {
    /// The description of the error, without its cause.
    pub open spec fn message_text(self) -> Seq<char> {
        match self {
            TlsError::OpenCertificateFile { path, .. } => "Failed to open certificate file: "@
                + path@,
            TlsError::OpenKeyFile { path, .. } => "Failed to open private key file: "@ + path@,
            TlsError::ParseCertificateFile { .. } => "Failed to parse certificate file"@,
            TlsError::NoCertificates => "No certificates found in certificate file"@,
            TlsError::ParseKeyFile { .. } => "Failed to parse private key file"@,
            TlsError::NoPrivateKey => "No private key found in key file"@,
            TlsError::ServerConfig { .. } => "Failed to create TLS server config"@,
        }
    }

    /// Describes the error, without its cause.
    pub fn message(&self) -> (message: String)
        ensures
            message@ == self.message_text(),
    {
        match self {
            TlsError::OpenCertificateFile { path, .. } => {
                "Failed to open certificate file: ".to_owned().concat(path.as_str())
            },
            TlsError::OpenKeyFile { path, .. } => {
                "Failed to open private key file: ".to_owned().concat(path.as_str())
            },
            TlsError::ParseCertificateFile { .. } => "Failed to parse certificate file".to_owned(),
            TlsError::NoCertificates => "No certificates found in certificate file".to_owned(),
            TlsError::ParseKeyFile { .. } => "Failed to parse private key file".to_owned(),
            TlsError::NoPrivateKey => "No private key found in key file".to_owned(),
            TlsError::ServerConfig { .. } => "Failed to create TLS server config".to_owned(),
        }
    }

    /// The cause of the error, as the system or the outside crate worded it.
    pub open spec fn cause_text(self) -> Option<Seq<char>> {
        match self {
            TlsError::OpenCertificateFile { cause, .. } => Some(cause@),
            TlsError::OpenKeyFile { cause, .. } => Some(cause@),
            TlsError::ParseCertificateFile { cause } => Some(cause@),
            TlsError::NoCertificates => None,
            TlsError::ParseKeyFile { cause } => Some(cause@),
            TlsError::NoPrivateKey => None,
            TlsError::ServerConfig { cause } => Some(cause@),
        }
    }

    /// Tells the cause of the error.
    pub fn cause(&self) -> (cause: Option<&String>)
        ensures
            cause is Some <==> self.cause_text() is Some,
            cause matches Some(cause) ==> self.cause_text() == Some(cause@),
    {
        match self {
            TlsError::OpenCertificateFile { cause, .. } => Some(cause),
            TlsError::OpenKeyFile { cause, .. } => Some(cause),
            TlsError::ParseCertificateFile { cause } => Some(cause),
            TlsError::NoCertificates => None,
            TlsError::ParseKeyFile { cause } => Some(cause),
            TlsError::NoPrivateKey => None,
            TlsError::ServerConfig { cause } => Some(cause),
        }
    }
}

impl View for PrivateKey {
    type V = (KeyFormat, Seq<u8>);

    open spec fn view(&self) -> (KeyFormat, Seq<u8>) {
        (self.format, self.der@)
    }
}

/// The bytes of each certificate of a chain.
pub open spec fn chain_bytes(certificates: Seq<Vec<u8>>) -> Seq<Seq<u8>> {
    certificates.map_values(|certificate: Vec<u8>| certificate@)
}

/// The bytes of a chain of certificates, or the reason why there is none.
pub open spec fn chain_view(chain: Result<Vec<Vec<u8>>, String>) -> Result<
    Seq<Seq<u8>>,
    Seq<char>,
> {
    match chain {
        Ok(certificates) => Ok(chain_bytes(certificates@)),
        Err(cause) => Err(cause@),
    }
}

/// The bytes of a private key, or the reason why it could not be read.
pub open spec fn key_view(key: Result<Option<PrivateKey>, String>) -> Result<
    Option<(KeyFormat, Seq<u8>)>,
    Seq<char>,
> {
    match key {
        Ok(Some(key)) => Ok(Some(key@)),
        Ok(None) => Ok(None),
        Err(cause) => Err(cause@),
    }
}

/// What a section of a PEM text holds.
pub enum PemKind {
    Certificate,
    Key(KeyFormat),
    Other,
}

/// The sections of a PEM text, each with its kind and its bytes, and the error that
/// ends them, if one does.
pub struct PemSections {
    pub sections: Seq<(PemKind, Seq<u8>)>,
    pub error: Option<Seq<char>>,
}

/// The sections of a PEM text, as repeated calls of `rustls_pemfile::read_one` yield
/// them, up to the first error or to the end.
pub uninterp spec fn pem_sections(pem: Seq<u8>) -> PemSections;

impl PemSections {
    /// The certificates among the sections, in their order, or the error.
    pub open spec fn certificates(self) -> Result<Seq<Seq<u8>>, Seq<char>> {
        match self.error {
            Some(error) => Err(error),
            None => Ok(
                self.sections.filter(
                    |section: (PemKind, Seq<u8>)| section.0 is Certificate,
                ).map_values(|section: (PemKind, Seq<u8>)| section.1),
            ),
        }
    }

    /// The first private key among the sections. An error behind it does not matter.
    pub open spec fn first_key(self) -> Result<Option<(KeyFormat, Seq<u8>)>, Seq<char>>
        decreases self.sections.len(),
    {
        if self.sections.len() == 0 {
            match self.error {
                Some(error) => Err(error),
                None => Ok(None),
            }
        } else {
            match self.sections[0].0 {
                PemKind::Key(format) => Ok(Some((format, self.sections[0].1))),
                _ => (PemSections {
                    sections: self.sections.drop_first(),
                    error: self.error,
                }).first_key(),
            }
        }
    }
}

/// Calls `rustls_pemfile::certs`: the result is the certificates among the sections
/// of the text, in their order, or the text of the first error. All other sections
/// are passed over.
#[verifier::external_body]
fn read_certificates(pem: &[u8]) -> (chain: Result<Vec<Vec<u8>>, String>)
    ensures
        chain_view(chain) == pem_sections(pem@).certificates(),
{
    rustls_pemfile::certs(&mut &pem[..])
        .map(|certificate| certificate.map(|der| der.to_vec()).map_err(|error| error.to_string()))
        .collect()
}

/// Calls `rustls_pemfile::private_key`: the result is the first key among the
/// sections of the text, if there is one, or the text of an error that comes before
/// any key. All other sections are passed over. The three formats are all that it
/// returns.
#[verifier::external_body]
fn read_private_key(pem: &[u8]) -> (key: Result<Option<PrivateKey>, String>)
    ensures
        key_view(key) == pem_sections(pem@).first_key(),
{
    let key = rustls_pemfile::private_key(&mut &pem[..]).map_err(|error| error.to_string())?;
    let der = key.as_ref().map(|key| key.secret_der().to_vec()).unwrap_or_default();
    Ok(match key {
        Some(PrivateKeyDer::Pkcs1(_)) => Some(PrivateKey { format: KeyFormat::Pkcs1, der }),
        Some(PrivateKeyDer::Sec1(_)) => Some(PrivateKey { format: KeyFormat::Sec1, der }),
        Some(PrivateKeyDer::Pkcs8(_)) => Some(PrivateKey { format: KeyFormat::Pkcs8, der }),
        _ => None,
    })
}

/// A TLS server configuration, from the crate `rustls`.
#[verifier::external_type_specification]
#[verifier::external_body]
pub struct ExServerConfig(ServerConfig);

/// The certificate chain that a server configuration was made with, which it
/// presents on every connection.
pub uninterp spec fn presented_chain(config: ServerConfig) -> Seq<Seq<u8>>;

/// The private key that a server configuration was made with.
pub uninterp spec fn signing_key(config: ServerConfig) -> (KeyFormat, Seq<u8>);

/// A server configuration asks the clients for a certificate.
pub uninterp spec fn asks_for_client_certificate(config: ServerConfig) -> bool;

/// Calls `rustls::ConfigBuilder::with_single_cert` on a builder without client
/// authentication, with the process's default provider of cryptography and with the
/// default protocol versions. Where the process has no default provider yet, that of
/// aws-lc-rs is installed as such. A configuration that comes of it uses the given
/// chain and key for all connections and asks no client for a certificate. Whether
/// one comes of it depends on the provider, and nothing is claimed of that.
#[verifier::external_body]
fn build_server_config(material: TlsMaterial) -> (config: Result<ServerConfig, String>)
    ensures
        config matches Ok(config) ==> presented_chain(config) == chain_bytes(
            material.certificates@,
        ) && signing_key(config) == material.key@ && !asks_for_client_certificate(config),
{
    let _ = aws_lc_rs::default_provider().install_default();
    let provider = CryptoProvider::get_default().cloned()
        .unwrap_or_else(|| Arc::new(aws_lc_rs::default_provider()));
    let chain = material.certificates.into_iter().map(CertificateDer::from).collect();
    let key = match material.key.format {
        KeyFormat::Pkcs1 => PrivateKeyDer::Pkcs1(material.key.der.into()),
        KeyFormat::Sec1 => PrivateKeyDer::Sec1(material.key.der.into()),
        KeyFormat::Pkcs8 => PrivateKeyDer::Pkcs8(material.key.der.into()),
    };
    ServerConfig::builder_with_provider(provider).with_safe_default_protocol_versions()
        .and_then(|builder| builder.with_no_client_auth().with_single_cert(chain, key))
        .map_err(|error| error.to_string())
}

/// A byte that ends a line of a PEM text.
pub open spec fn is_line_end(byte: u8) -> bool {
    byte == 0x0a || byte == 0x0d
}

/// `bytes` up to its last line end.
pub open spec fn whole_lines(bytes: Seq<u8>) -> Seq<u8>
    decreases bytes.len(),
{
    if bytes.len() == 0 || is_line_end(bytes.last()) {
        bytes
    } else {
        whole_lines(bytes.drop_last())
    }
}

/// Cuts a text behind its last line end.
fn cut_to_whole_lines(bytes: &mut Vec<u8>)
    ensures
        final(bytes)@ == whole_lines(old(bytes)@),
{
    while bytes.len() > 0 && !(bytes[bytes.len() - 1] == 0x0a || bytes[bytes.len() - 1] == 0x0d)
        invariant
            whole_lines(bytes@) == whole_lines(old(bytes)@),
        decreases bytes@.len(),
    {
        bytes.pop();
    }
}

/// The certificates in a file. One that could not be read to its end has none.
pub open spec fn certificates_in(file: FileRead) -> Result<Seq<Seq<u8>>, Seq<char>> {
    match file {
        FileRead::Contents(pem) => pem_sections(pem@).certificates(),
        FileRead::OpenFailed(cause) => Err(cause@),
        FileRead::ReadFailed { cause, .. } => Err(cause@),
    }
}

/// The first private key in a file. In one that could not be read to its end, it is
/// looked for in the lines that were read.
pub open spec fn private_key_in(file: FileRead) -> Result<
    Option<(KeyFormat, Seq<u8>)>,
    Seq<char>,
> {
    match file {
        FileRead::Contents(pem) => pem_sections(pem@).first_key(),
        FileRead::OpenFailed(cause) => Err(cause@),
        FileRead::ReadFailed { read, cause } => match pem_sections(
            whole_lines(read@),
        ).first_key() {
            Ok(Some(key)) => Ok(Some(key)),
            _ => Err(cause@),
        },
    }
}

/// `outcome` is what a chain and a key make: both, where there is a certificate and
/// a key, and else the first error, that of the chain in front of that of the key.
pub open spec fn is_material(
    outcome: Result<TlsMaterial, TlsError>,
    chain: Result<Seq<Seq<u8>>, Seq<char>>,
    key: Result<Option<(KeyFormat, Seq<u8>)>, Seq<char>>,
) -> bool {
    match (chain, key) {
        (Err(reason), _) => outcome matches Err(TlsError::ParseCertificateFile { cause }) && cause@
            == reason,
        (Ok(certificates), _) if certificates.len() == 0 => outcome == Err::<TlsMaterial, _>(
            TlsError::NoCertificates,
        ),
        (Ok(_), Err(reason)) => outcome matches Err(TlsError::ParseKeyFile { cause }) && cause@
            == reason,
        (Ok(_), Ok(None)) => outcome == Err::<TlsMaterial, _>(TlsError::NoPrivateKey),
        (Ok(certificates), Ok(Some(key))) => outcome matches Ok(material) && chain_bytes(
            material.certificates@,
        ) == certificates && material.key@ == key,
    }
}

/// `outcome` is what the two configured files make: an error for the one that could
/// not be opened, the certificate file first, and else what they hold.
pub open spec fn is_file_material(
    outcome: Result<TlsMaterial, TlsError>,
    tls_config: TlsConfig,
    cert_file: FileRead,
    key_file: FileRead,
) -> bool {
    match (cert_file, key_file) {
        (FileRead::OpenFailed(reason), _) => outcome matches Err(
            TlsError::OpenCertificateFile { path, cause },
        ) && path@ == tls_config.cert_file@ && cause@ == reason@,
        (_, FileRead::OpenFailed(reason)) => outcome matches Err(
            TlsError::OpenKeyFile { path, cause },
        ) && path@ == tls_config.key_file@ && cause@ == reason@,
        _ => is_material(outcome, certificates_in(cert_file), private_key_in(key_file)),
    }
}

/// Makes a chain and a key into the material of a server.
pub fn tls_material(
    chain: Result<Vec<Vec<u8>>, String>,
    key: Result<Option<PrivateKey>, String>,
) -> (outcome: Result<TlsMaterial, TlsError>)
    ensures
        is_material(outcome, chain_view(chain), key_view(key)),
{
    let certificates = match chain {
        Ok(certificates) => certificates,
        Err(cause) => {
            return Err(TlsError::ParseCertificateFile { cause });
        },
    };
    if certificates.len() == 0 {
        return Err(TlsError::NoCertificates);
    }
    match key {
        Ok(Some(key)) => Ok(TlsMaterial { certificates, key }),
        Ok(None) => Err(TlsError::NoPrivateKey),
        Err(cause) => Err(TlsError::ParseKeyFile { cause }),
    }
}

/// Reads the material of a server out of the two configured files.
pub fn read_tls_material(
    tls_config: &TlsConfig,
    cert_file: FileRead,
    key_file: FileRead,
) -> (outcome: Result<TlsMaterial, TlsError>)
    ensures
        is_file_material(outcome, *tls_config, cert_file, key_file),
{
    let chain = match cert_file {
        FileRead::Contents(pem) => Ok(pem),
        FileRead::ReadFailed { cause, .. } => Err(cause),
        FileRead::OpenFailed(cause) => {
            return Err(
                TlsError::OpenCertificateFile { path: tls_config.cert_file.clone(), cause },
            );
        },
    };
    let key = match key_file {
        FileRead::Contents(pem) => read_private_key(pem.as_slice()),
        FileRead::ReadFailed { read, cause } => {
            let mut lines = read;
            cut_to_whole_lines(&mut lines);
            match read_private_key(lines.as_slice()) {
                Ok(Some(key)) => Ok(Some(key)),
                _ => Err(cause),
            }
        },
        FileRead::OpenFailed(cause) => {
            return Err(TlsError::OpenKeyFile { path: tls_config.key_file.clone(), cause });
        },
    };
    let chain = match chain {
        Ok(pem) => read_certificates(pem.as_slice()),
        Err(cause) => Err(cause),
    };
    tls_material(chain, key)
}

/// Makes the outcome of building a server configuration the outcome of setting up
/// TLS.
pub fn tls_config_outcome(built: Result<ServerConfig, String>) -> (outcome: Result<
    ServerConfig,
    TlsError,
>)
    ensures
        outcome == (match built {
            Ok(config) => Ok::<ServerConfig, TlsError>(config),
            Err(cause) => Err(TlsError::ServerConfig { cause }),
        }),
{
    match built {
        Ok(config) => Ok(config),
        Err(cause) => Err(TlsError::ServerConfig { cause }),
    }
}

/// A server configuration that presents the chain of `material`, signs with its key
/// and asks no client for a certificate.
pub open spec fn serves(config: ServerConfig, material: TlsMaterial) -> bool {
    &&& presented_chain(config) == chain_bytes(material.certificates@)
    &&& signing_key(config) == material.key@
    &&& !asks_for_client_certificate(config)
}

/// `built` is what building a server configuration of `material` came to.
pub closed spec fn rustls_answers(material: TlsMaterial, built: Result<ServerConfig, String>) -> bool {
    call_ensures(build_server_config, (material,), built)
}

/// `outcome` is what `rustls` made of `material`: a configuration that serves it, or
/// the refusal with its cause.
pub open spec fn is_made_of(outcome: Result<ServerConfig, TlsError>, material: TlsMaterial) -> bool {
    match outcome {
        Ok(config) => serves(config, material) && rustls_answers(material, Ok(config)),
        Err(TlsError::ServerConfig { cause }) => rustls_answers(material, Err(cause)),
        Err(_) => false,
    }
}

/// `outcome` is what setting up TLS with the two configured files may come to: where
/// they hold a chain and a key, what `rustls` makes of these, and else the error of the
/// files.
pub open spec fn is_tls_outcome(
    outcome: Result<ServerConfig, TlsError>,
    tls_config: TlsConfig,
    cert_file: FileRead,
    key_file: FileRead,
) -> bool {
    if outcome is Ok || outcome->Err_0 is ServerConfig {
        exists|material: TlsMaterial| #[trigger]
            is_file_material(Ok(material), tls_config, cert_file, key_file) && is_made_of(
                outcome,
                material,
            )
    } else {
        is_file_material(Err(outcome->Err_0), tls_config, cert_file, key_file)
    }
}

/// Sets up TLS with the certificate chain and the private key of the two configured
/// files. Where the files hold both, it is up to `rustls` whether they will do.
pub fn load_tls_config(
    tls_config: &TlsConfig,
    cert_file: FileRead,
    key_file: FileRead,
) -> (outcome: Result<ServerConfig, TlsError>)
    ensures
        is_tls_outcome(outcome, *tls_config, cert_file, key_file),
{
    match read_tls_material(tls_config, cert_file, key_file) {
        Ok(material) => tls_config_outcome(build_server_config(material)),
        Err(error) => Err(error),
    }
}

/// Two configured files yield the material of a server exactly where the one could be
/// read to its end and holds a certificate and no broken section, and a private key
/// could be read out of the other.
pub proof fn law_material_needs_a_chain_and_a_key(
    outcome: Result<TlsMaterial, TlsError>,
    tls_config: TlsConfig,
    cert_file: FileRead,
    key_file: FileRead,
)
    requires
        is_file_material(outcome, tls_config, cert_file, key_file),
    ensures
        outcome is Ok <==> (certificates_in(cert_file) matches Ok(chain) && chain.len() > 0) && (
        private_key_in(key_file) matches Ok(Some(_))),
        outcome matches Ok(material) ==> material.certificates@.len() > 0,
{
    if let Ok(material) = outcome {
        assert(chain_bytes(material.certificates@).len() == material.certificates@.len());
    }
}

/// Both files could be opened.
pub open spec fn both_opened(cert_file: FileRead, key_file: FileRead) -> bool {
    cert_file !is OpenFailed && key_file !is OpenFailed
}

/// Files with the same certificates and the same first key give the same material or
/// the same error.
pub proof fn law_same_sections_same_material(
    one: Result<TlsMaterial, TlsError>,
    one_config: TlsConfig,
    one_cert_file: FileRead,
    one_key_file: FileRead,
    other: Result<TlsMaterial, TlsError>,
    other_config: TlsConfig,
    other_cert_file: FileRead,
    other_key_file: FileRead,
)
    requires
        is_file_material(one, one_config, one_cert_file, one_key_file),
        is_file_material(other, other_config, other_cert_file, other_key_file),
        both_opened(one_cert_file, one_key_file),
        both_opened(other_cert_file, other_key_file),
        certificates_in(one_cert_file) == certificates_in(other_cert_file),
        private_key_in(one_key_file) == private_key_in(other_key_file),
    ensures
        one is Ok <==> other is Ok,
        one matches Ok(material) ==> chain_bytes(material.certificates@) == chain_bytes(
            other->Ok_0.certificates@,
        ) && material.key@ == other->Ok_0.key@,
        one matches Err(error) ==> error.message_text() == other->Err_0.message_text()
            && error.cause_text() == other->Err_0.cause_text(),
{
}

/// Of two set-ups of TLS, with files of the same certificates and the same first key,
/// both fail on the files, with the same error, or neither does. Two configurations
/// that come of them present the same chain and sign with the same key.
pub proof fn law_same_sections_same_outcome(
    one: Result<ServerConfig, TlsError>,
    one_config: TlsConfig,
    one_cert_file: FileRead,
    one_key_file: FileRead,
    other: Result<ServerConfig, TlsError>,
    other_config: TlsConfig,
    other_cert_file: FileRead,
    other_key_file: FileRead,
)
    requires
        is_tls_outcome(one, one_config, one_cert_file, one_key_file),
        is_tls_outcome(other, other_config, other_cert_file, other_key_file),
        both_opened(one_cert_file, one_key_file),
        both_opened(other_cert_file, other_key_file),
        certificates_in(one_cert_file) == certificates_in(other_cert_file),
        private_key_in(one_key_file) == private_key_in(other_key_file),
    ensures
        one matches Ok(config) ==> (match other {
            Ok(other_config) => presented_chain(config) == presented_chain(other_config)
                && signing_key(config) == signing_key(other_config),
            Err(error) => error is ServerConfig,
        }),
        one matches Err(error) ==> (if error is ServerConfig {
            other matches Err(other_error) ==> other_error is ServerConfig
        } else {
            other matches Err(other_error) && error.message_text() == other_error.message_text()
                && error.cause_text() == other_error.cause_text()
        }),
{
    let one_material = material_of(one, one_config, one_cert_file, one_key_file);
    let other_material = material_of(other, other_config, other_cert_file, other_key_file);
    law_same_sections_same_material(
        one_material,
        one_config,
        one_cert_file,
        one_key_file,
        other_material,
        other_config,
        other_cert_file,
        other_key_file,
    );
}

/// The material that an outcome of setting up TLS came of, or the error of the files.
spec fn material_of(
    outcome: Result<ServerConfig, TlsError>,
    tls_config: TlsConfig,
    cert_file: FileRead,
    key_file: FileRead,
) -> Result<TlsMaterial, TlsError> {
    if outcome is Ok || outcome->Err_0 is ServerConfig {
        Ok(
            choose|material: TlsMaterial| #[trigger]
                is_file_material(Ok(material), tls_config, cert_file, key_file) && is_made_of(
                    outcome,
                    material,
                ),
        )
    } else {
        Err(outcome->Err_0)
    }
}

/// A section that is no certificate, put anywhere among the sections of a file, does
/// not change its certificates.
pub proof fn law_other_sections_are_no_certificates(
    before: Seq<(PemKind, Seq<u8>)>,
    section: (PemKind, Seq<u8>),
    after: Seq<(PemKind, Seq<u8>)>,
    error: Option<Seq<char>>,
)
    requires
        section.0 !is Certificate,
    ensures
        (PemSections { sections: before.push(section) + after, error }).certificates() == (
        PemSections { sections: before + after, error }).certificates(),
{
    let keep = |section: (PemKind, Seq<u8>)| section.0 is Certificate;
    Seq::filter_distributes_over_add(before.push(section), after, keep);
    Seq::filter_distributes_over_add(before, after, keep);
    reveal(Seq::filter);
    assert(before.push(section).drop_last() =~= before);
    assert(before.push(section).filter(keep) == before.filter(keep));
}

/// A section that is no private key, put anywhere among the sections of a file, does
/// not change its first key, and neither does anything behind the first key.
pub proof fn law_other_sections_are_no_keys(
    before: Seq<(PemKind, Seq<u8>)>,
    section: (PemKind, Seq<u8>),
    after: Seq<(PemKind, Seq<u8>)>,
    error: Option<Seq<char>>,
)
    ensures
        section.0 !is Key ==> (PemSections { sections: before.push(section) + after, error })
            .first_key() == (PemSections { sections: before + after, error }).first_key(),
        (PemSections { sections: before, error: None }).first_key() matches Ok(Some(key)) ==> (
        PemSections { sections: before + after, error }).first_key() == Ok::<
            Option<(KeyFormat, Seq<u8>)>,
            Seq<char>,
        >(Some(key)),
    decreases before.len(),
{
    if before.len() > 0 {
        law_other_sections_are_no_keys(before.drop_first(), section, after, error);
        assert((before.push(section) + after).drop_first() =~= before.drop_first().push(section)
            + after);
        assert((before + after).drop_first() =~= before.drop_first() + after);
    } else {
        assert((before.push(section) + after).drop_first() =~= after);
        assert(before + after =~= after);
    }
}

/// What counts as an answer of `rustls` is what the call that asks it returned.
proof fn lemma_rustls_answers(material: TlsMaterial, built: Result<ServerConfig, String>)
    ensures
        rustls_answers(material, built) <==> call_ensures(build_server_config, (material,), built),
{
}

/// Where the two files hold a chain and a key, it is `rustls` alone that decides: it is
/// asked for a configuration with this chain and this key, whatever they are, and its
/// answer is returned, the configuration or the refusal with its cause. A configuration
/// presents the chain, signs with the key and asks no client for a certificate.
pub proof fn law_rustls_alone_decides(
    tls_config: TlsConfig,
    cert_pem: Vec<u8>,
    key_pem: Vec<u8>,
    chain: Seq<Seq<u8>>,
    key: (KeyFormat, Seq<u8>),
    outcome: Result<ServerConfig, TlsError>,
)
    requires
        call_ensures(
            load_tls_config,
            (&tls_config, FileRead::Contents(cert_pem), FileRead::Contents(key_pem)),
            outcome,
        ),
        pem_sections(cert_pem@).certificates() == Ok::<Seq<Seq<u8>>, Seq<char>>(chain),
        chain.len() > 0,
        pem_sections(key_pem@).first_key() == Ok::<Option<(KeyFormat, Seq<u8>)>, Seq<char>>(
            Some(key),
        ),
    ensures
        exists|material: TlsMaterial, built: Result<ServerConfig, String>| #[trigger]
            rustls_answers(material, built) && chain_bytes(material.certificates@) == chain
                && material.key@ == key && match built {
                Ok(config) => outcome == Ok::<ServerConfig, TlsError>(config),
                Err(cause) => outcome == Err::<ServerConfig, TlsError>(
                    TlsError::ServerConfig { cause },
                ),
            },
        outcome matches Ok(config) ==> presented_chain(config) == chain && signing_key(config) == key
            && !asks_for_client_certificate(config),
{
    let cert_file = FileRead::Contents(cert_pem);
    let key_file = FileRead::Contents(key_pem);
    assert(outcome is Ok || outcome->Err_0 is ServerConfig);
    let material = choose|material: TlsMaterial| #[trigger]
        is_file_material(Ok(material), tls_config, cert_file, key_file) && is_made_of(
            outcome,
            material,
        );
    let built = match outcome {
        Ok(config) => Ok::<ServerConfig, String>(config),
        Err(error) => Err(error->ServerConfig_cause),
    };
    lemma_rustls_answers(material, built);
    assert(rustls_answers(material, built));
}

/// Whatever material two files yield is put to `rustls`, and its answer is the outcome.
/// Where they yield none, the outcome is the error of reading them.
pub proof fn law_what_was_read_is_put_to_rustls(
    tls_config: TlsConfig,
    cert_file: FileRead,
    key_file: FileRead,
    read: Result<TlsMaterial, TlsError>,
    outcome: Result<ServerConfig, TlsError>,
)
    requires
        call_ensures(read_tls_material, (&tls_config, cert_file, key_file), read),
        call_ensures(load_tls_config, (&tls_config, cert_file, key_file), outcome),
    ensures
        read matches Ok(yielded) ==> exists|
            material: TlsMaterial,
            built: Result<ServerConfig, String>,
        | #[trigger]
            rustls_answers(material, built) && chain_bytes(material.certificates@) == chain_bytes(
                yielded.certificates@,
            ) && material.key@ == yielded.key@ && match built {
                Ok(config) => outcome == Ok::<ServerConfig, TlsError>(config),
                Err(cause) => outcome == Err::<ServerConfig, TlsError>(
                    TlsError::ServerConfig { cause },
                ),
            },
        read matches Err(error) ==> (outcome matches Err(same) && same.message_text()
            == error.message_text() && same.cause_text() == error.cause_text()),
{
    law_material_needs_a_chain_and_a_key(read, tls_config, cert_file, key_file);
    if read is Ok {
        assert(outcome is Ok || outcome->Err_0 is ServerConfig);
        let material = choose|material: TlsMaterial| #[trigger]
            is_file_material(Ok(material), tls_config, cert_file, key_file) && is_made_of(
                outcome,
                material,
            );
        let built = match outcome {
            Ok(config) => Ok::<ServerConfig, String>(config),
            Err(error) => Err(error->ServerConfig_cause),
        };
        lemma_rustls_answers(material, built);
        assert(rustls_answers(material, built));
    }
}

/// A chain and a key make material exactly where both could be read, the chain has a
/// certificate and there is a key. The material is that chain and that key, unchanged.
/// Each failure has an error of its own, and that of the chain comes first.
pub proof fn law_chain_and_key_make_material(
    chain: Result<Vec<Vec<u8>>, String>,
    key: Result<Option<PrivateKey>, String>,
    outcome: Result<TlsMaterial, TlsError>,
)
    requires
        call_ensures(tls_material, (chain, key), outcome),
    ensures
        outcome is Ok <==> chain is Ok && chain->Ok_0@.len() > 0 && key is Ok && key->Ok_0 is Some,
        outcome matches Ok(material) ==> chain_bytes(material.certificates@) == chain_bytes(
            chain->Ok_0@,
        ) && material.key@ == key->Ok_0->0@,
        chain matches Err(reason) ==> (outcome matches Err(TlsError::ParseCertificateFile { cause })
            && cause@ == reason@),
        outcome == Err::<TlsMaterial, TlsError>(TlsError::NoCertificates) <==> chain is Ok
            && chain->Ok_0@.len() == 0,
        outcome == Err::<TlsMaterial, TlsError>(TlsError::NoPrivateKey) <==> chain is Ok
            && chain->Ok_0@.len() > 0 && key is Ok && key->Ok_0 is None,
        chain is Ok && chain->Ok_0@.len() > 0 ==> (key matches Err(reason) ==> (
        outcome matches Err(TlsError::ParseKeyFile { cause }) && cause@ == reason@)),
{
    if let Ok(certificates) = chain {
        assert(chain_bytes(certificates@).len() == certificates@.len());
    }
}

/// Two files that could be read yield exactly the certificates of the one and the first
/// key of the other, and each that has none, or is broken, its own error.
pub proof fn law_files_yield_their_sections(
    tls_config: TlsConfig,
    cert_pem: Vec<u8>,
    key_pem: Vec<u8>,
    outcome: Result<TlsMaterial, TlsError>,
)
    requires
        call_ensures(
            read_tls_material,
            (&tls_config, FileRead::Contents(cert_pem), FileRead::Contents(key_pem)),
            outcome,
        ),
    ensures
        match pem_sections(cert_pem@).certificates() {
            Err(reason) => outcome matches Err(TlsError::ParseCertificateFile { cause }) && cause@
                == reason,
            Ok(chain) => if chain.len() == 0 {
                outcome == Err::<TlsMaterial, TlsError>(TlsError::NoCertificates)
            } else {
                match pem_sections(key_pem@).first_key() {
                    Err(reason) => outcome matches Err(TlsError::ParseKeyFile { cause }) && cause@
                        == reason,
                    Ok(None) => outcome == Err::<TlsMaterial, TlsError>(TlsError::NoPrivateKey),
                    Ok(Some(key)) => outcome matches Ok(material) && chain_bytes(
                        material.certificates@,
                    ) == chain && material.key@ == key,
                }
            },
        },
{
}

/// A file that cannot be opened is an error that names its path and its cause, that of
/// the certificates before that of the key.
pub proof fn law_unopened_files_are_named(
    tls_config: TlsConfig,
    cert_file: FileRead,
    key_file: FileRead,
    outcome: Result<TlsMaterial, TlsError>,
)
    requires
        call_ensures(read_tls_material, (&tls_config, cert_file, key_file), outcome),
    ensures
        cert_file matches FileRead::OpenFailed(reason) ==> (outcome matches Err(
            TlsError::OpenCertificateFile { path, cause },
        ) && path@ == tls_config.cert_file@ && cause@ == reason@),
        cert_file !is OpenFailed ==> (key_file matches FileRead::OpenFailed(reason) ==> (
        outcome matches Err(TlsError::OpenKeyFile { path, cause }) && path@
            == tls_config.key_file@ && cause@ == reason@)),
        outcome is Err && outcome->Err_0 is OpenCertificateFile ==> cert_file is OpenFailed,
        outcome is Err && outcome->Err_0 is OpenKeyFile ==> key_file is OpenFailed,
{
}

/// A certificate file that cannot be read to its end is an error with that cause, even
/// where certificates stand in front.
pub proof fn law_unread_certificates_are_an_error(
    tls_config: TlsConfig,
    read: Vec<u8>,
    reason: String,
    key_file: FileRead,
    outcome: Result<TlsMaterial, TlsError>,
)
    requires
        call_ensures(
            read_tls_material,
            (&tls_config, FileRead::ReadFailed { read, cause: reason }, key_file),
            outcome,
        ),
        key_file !is OpenFailed,
    ensures
        outcome matches Err(TlsError::ParseCertificateFile { cause }) && cause@ == reason@,
{
}

/// A key file that cannot be read to its end yields the first key in the lines that
/// were read, where there is one, and else an error with that cause.
pub proof fn law_keys_in_front_of_a_failure_count(
    tls_config: TlsConfig,
    cert_pem: Vec<u8>,
    read: Vec<u8>,
    lines: int,
    reason: String,
    outcome: Result<TlsMaterial, TlsError>,
)
    requires
        call_ensures(
            read_tls_material,
            (
                &tls_config,
                FileRead::Contents(cert_pem),
                FileRead::ReadFailed { read, cause: reason },
            ),
            outcome,
        ),
        pem_sections(cert_pem@).certificates() matches Ok(chain) && chain.len() > 0,
        0 <= lines <= read@.len(),
        lines > 0 ==> read@[lines - 1] == 0x0a || read@[lines - 1] == 0x0d,
        forall|i: int| lines <= i < read@.len() ==> #[trigger] read@[i] != 0x0a && read@[i] != 0x0d,
    ensures
        match pem_sections(read@.take(lines)).first_key() {
            Ok(Some(key)) => outcome matches Ok(material) && chain_bytes(material.certificates@)
                == pem_sections(cert_pem@).certificates()->Ok_0 && material.key@ == key,
            _ => outcome matches Err(TlsError::ParseKeyFile { cause }) && cause@ == reason@,
        },
{
    law_whole_lines_end_in_a_line_end(read@, lines);
}

/// The whole lines of a text are all up to its last line feed or carriage return.
pub proof fn law_whole_lines_end_in_a_line_end(bytes: Seq<u8>, lines: int)
    requires
        0 <= lines <= bytes.len(),
        lines > 0 ==> bytes[lines - 1] == 0x0a || bytes[lines - 1] == 0x0d,
        forall|i: int| lines <= i < bytes.len() ==> #[trigger] bytes[i] != 0x0a && bytes[i] != 0x0d,
    ensures
        whole_lines(bytes) == bytes.take(lines),
    decreases bytes.len(),
{
    if lines < bytes.len() {
        assert(bytes.last() != 0x0a && bytes.last() != 0x0d);
        law_whole_lines_end_in_a_line_end(bytes.drop_last(), lines);
        assert(bytes.drop_last().take(lines) =~= bytes.take(lines));
    } else {
        assert(bytes.take(lines) =~= bytes);
    }
}

/// The first key of a text is the first section that is a key: all in front of it are
/// none. Without one there is no key, or the error of the text.
pub proof fn law_first_key_is_the_first(pem: PemSections, n: int, format: KeyFormat)
    requires
        0 <= n <= pem.sections.len(),
        forall|i: int| 0 <= i < n ==> (#[trigger] pem.sections[i]).0 !is Key,
        n < pem.sections.len() ==> pem.sections[n].0 == PemKind::Key(format),
    ensures
        n < pem.sections.len() ==> pem.first_key() == Ok::<
            Option<(KeyFormat, Seq<u8>)>,
            Seq<char>,
        >(Some((format, pem.sections[n].1))),
        n == pem.sections.len() ==> pem.first_key() == (match pem.error {
            Some(error) => Err::<Option<(KeyFormat, Seq<u8>)>, Seq<char>>(error),
            None => Ok(None),
        }),
    decreases n,
{
    if n > 0 {
        let rest = PemSections { sections: pem.sections.drop_first(), error: pem.error };
        assert forall|i: int| 0 <= i < n - 1 implies (#[trigger] rest.sections[i]).0 !is Key by {
            assert(rest.sections[i] == pem.sections[i + 1]);
        }
        assert(pem.sections[0].0 !is Key);
        law_first_key_is_the_first(rest, n - 1, format);
    }
}

/// The certificates of a text grow by one with each section that is a certificate, at
/// the end, and by none with any other. A text with an error has none.
pub proof fn law_certificates_keep_their_order(
    sections: Seq<(PemKind, Seq<u8>)>,
    section: (PemKind, Seq<u8>),
    chain: Seq<Seq<u8>>,
    error: Seq<char>,
)
    requires
        (PemSections { sections, error: None }).certificates() == Ok::<Seq<Seq<u8>>, Seq<char>>(
            chain,
        ),
    ensures
        sections.len() == 0 ==> chain.len() == 0,
        (PemSections { sections: sections.push(section), error: None }).certificates() == Ok::<
            Seq<Seq<u8>>,
            Seq<char>,
        >(
            if section.0 is Certificate {
                chain.push(section.1)
            } else {
                chain
            },
        ),
        (PemSections { sections, error: Some(error) }).certificates() == Err::<
            Seq<Seq<u8>>,
            Seq<char>,
        >(error),
{
    let keep = |section: (PemKind, Seq<u8>)| section.0 is Certificate;
    reveal(Seq::filter);
    assert(sections.push(section).drop_last() =~= sections);
    let more = PemSections { sections: sections.push(section), error: None };
    let bytes = |section: (PemKind, Seq<u8>)| section.1;
    if section.0 is Certificate {
        assert(sections.push(section).filter(keep) =~= sections.filter(keep).push(section));
        assert(sections.filter(keep).push(section).map_values(bytes) =~= chain.push(section.1));
    } else {
        assert(sections.push(section).filter(keep) =~= sections.filter(keep));
    }
}

/// The answer of `rustls` is handed on: its configuration as it is, and its refusal as
/// an error with the same cause.
pub proof fn law_answers_are_handed_on(
    built: Result<ServerConfig, String>,
    outcome: Result<ServerConfig, TlsError>,
)
    requires
        call_ensures(tls_config_outcome, (built,), outcome),
    ensures
        outcome is Ok <==> built is Ok,
        built matches Ok(config) ==> outcome == Ok::<ServerConfig, TlsError>(config),
        built matches Err(reason) ==> (outcome matches Err(TlsError::ServerConfig { cause })
            && cause == reason),
{
}

/// The error of setting up TLS says what failed, and names the file that could not be
/// opened.
pub proof fn law_tls_errors_say_what_failed(error: TlsError, message: String)
    requires
        call_ensures(TlsError::message, (&error,), message),
    ensures
        match error {
            TlsError::OpenCertificateFile { path, .. } => message@
                == "Failed to open certificate file: "@ + path@,
            TlsError::OpenKeyFile { path, .. } => message@ == "Failed to open private key file: "@
                + path@,
            TlsError::ParseCertificateFile { .. } => message@
                == "Failed to parse certificate file"@,
            TlsError::NoCertificates => message@ == "No certificates found in certificate file"@,
            TlsError::ParseKeyFile { .. } => message@ == "Failed to parse private key file"@,
            TlsError::NoPrivateKey => message@ == "No private key found in key file"@,
            TlsError::ServerConfig { .. } => message@ == "Failed to create TLS server config"@,
        },
{
}

/// The error of setting up TLS keeps the cause that it came of, and has none exactly
/// where a file holds nothing of what is looked for.
pub proof fn law_tls_errors_keep_their_cause(error: TlsError, cause: Option<&String>)
    requires
        call_ensures(TlsError::cause, (&error,), cause),
    ensures
        cause is None <==> error is NoCertificates || error is NoPrivateKey,
        cause matches Some(cause) ==> match error {
            TlsError::OpenCertificateFile { cause: kept, .. } => cause@ == kept@,
            TlsError::OpenKeyFile { cause: kept, .. } => cause@ == kept@,
            TlsError::ParseCertificateFile { cause: kept } => cause@ == kept@,
            TlsError::ParseKeyFile { cause: kept } => cause@ == kept@,
            TlsError::ServerConfig { cause: kept } => cause@ == kept@,
            _ => false,
        },
{
}

} // verus!
