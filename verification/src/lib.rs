//! A WebSocket relay that routes connections by their `Host` header to TCP
//! backends, with proxy address filtering and TLS termination.
//!
//! This crate holds the decisions of the relay. Sockets, files and logging are
//! the business of the program around it.

pub mod address;
pub mod config;
pub mod relay;
pub mod request;
pub mod security;
pub mod session;
pub mod text;
pub mod tls;

pub use address::{IpAddr, IpNet};
pub use config::{Config, ListenConfig, TargetConfig, Targets, TlsConfig};
pub use relay::BUFFER_SIZE;
pub use security::{is_proxy_ip_allowed, parse_original_client_ip};
pub use tls::load_tls_config;
