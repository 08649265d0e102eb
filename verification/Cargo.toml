[package]
name = "rexisce"
version = "0.1.0"
edition = "2021"
publish = false

[dependencies]
uuid = { version = "=1.29.0", features = ["v4"] }
base64 = "=0.22.1"
sha1 = "=0.10.7"
rand = "=0.8.8"
aes-gcm = "=0.10.3"
serde_json = "=1.0.154"
anyhow = "=1.0.104"
vodozemac = { version = "=0.11.1", features = ["experimental-session-config"] }
tokio-xmpp = { version = "=6.0.0", default-features = false }
xmpp-parsers = "=0.23.0"
tokio = { version = "=1.54.1", features = ["rt", "macros", "sync", "time"] }
futures = "=0.3.34"
tracing = "=0.1.44"
