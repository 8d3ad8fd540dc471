[package]
name = "cql_ws"
version = "0.1.0"
edition = "2021"
publish = false

[dependencies]
http = "=0.2.12"
rustls-pemfile = "=1.0.4"
rustls = { version = "=0.21.12", features = ["dangerous_configuration"] }
tokio = { version = "=1.53.2", features = ["full"] }
tokio-tungstenite = { version = "=0.20.1", features = ["rustls-tls-webpki-roots"] }
futures-util = "=0.3.34"

[dev-dependencies]
cassandra-protocol = "=2.0.1"
