[package]
name = "reasoner"
version = "0.1.0"
edition = "2021"
publish = false

[dependencies]
bb8 = "=0.4.2"
bb8-postgres = "=0.4.0"
bytes = "=0.5.6"
futures = "=0.3.34"
oxigraph = { version = "=0.1.1", features = ["sled"] }
oxrdf = "=0.3.5"
rdf = "=0.1.4"
reasonable = "=0.4.4"
serde = { version = "=1.0.229", features = ["derive"] }
serde_json = "=1.0.154"
tokio = { version = "=0.2.25", features = ["full"] }
tokio-postgres = "=0.5.5"
warp = "=0.2.5"
