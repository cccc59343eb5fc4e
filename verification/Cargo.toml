[package]
name = "openshell"
version = "0.1.0"
edition = "2021"
publish = false

[dependencies]
base64 = "=0.22.1"
bytes = "=1.12.1"
crossterm = "=0.27.0"
hex = "=0.4.3"
http = "=1.5.0"
http-body = "1"
http-body-util = "=0.1.5"
hyper = { version = "=1.12.0", features = ["client", "http1", "http2", "server"] }
hyper-util = { version = "=0.1.21", features = ["server-auto", "tokio"] }
indexmap = "=2.14.2"
jsonwebtoken = { version = "=10.4.0", default-features = false, features = ["rust_crypto", "use_pem"] }
libc = "0.2"
rand = "=0.9.5"
ratatui = "=0.26.3"
reqwest = { version = "=0.12.28", default-features = false, features = ["json"] }
rustls-pemfile = "=2.2.0"
serde = { version = "=1.0.229", features = ["derive"] }
serde_json = "=1.0.154"
tokio = { version = "=1.54.1", features = ["io-util", "macros", "net", "rt", "sync", "time"] }
tokio-rustls = { version = "0.26", default-features = false }
toml = "=0.8.23"
tonic = { version = "=0.14.9", default-features = false }
url = "=2.5.8"
uuid = { version = "=1.29.0", features = ["v4"] }
x509-parser = "=0.16.0"

[dev-dependencies]
rcgen = "=0.13.2"
