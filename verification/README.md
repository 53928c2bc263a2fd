# WebSocket relay

A relay that accepts WebSocket connections and forwards them to TCP servers,
chosen by the `Host` header of the request. It can terminate TLS, and it can be
restricted to connections from given reverse proxies.

`src/` is the library: the decisions of the relay, with contracts that Verus
proves. The proofs rest on the stated contracts of a few outside calls: std reads
addresses and tells white space, `ipnet` reads and compares networks, `http` hands
out header values, `rustls-pemfile` reads PEM sections, and `rustls` builds the TLS
configuration. Each stands behind a function whose doc comment says what is taken
on trust.

- `text`: trimming, splitting, numbers and `host:port` addresses
- `address`: IP addresses, CIDR networks and their notations
- `security`: the allow list of proxies, and the original client of
  `X-Forwarded-For`
- `config`: the configuration and the backends by domain
- `request`: what is read out of an upgrade request
- `session`: the course of a connection, from its acceptance to its end
- `relay`: the two directions of a relayed connection
- `tls`: the certificate chain and private key of the server

`app/` is the server around it: it reads `config.toml`, listens, performs what the
library decides and reports back what happened. It also runs the two directions of a
connection side by side, and which of them ends first is decided there. `tests/`
runs the library with the outside crates that it calls.

## Configuration

```toml
[listen]
ip = "0.0.0.0"
port = 443
# Without this, every proxy may connect.
allowed_proxy_ips = ["192.168.1.0/24", "10.0.0.1", "::1"]

# With this, connections are accepted over TLS only.
[listen.tls]
cert_file = "cert.pem"
key_file = "key.pem"

[targets]
"example.com" = { host = "127.0.0.1", port = 8080 }
"api.example.com" = { host = "127.0.0.1", port = 8081 }
```
