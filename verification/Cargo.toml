[package]
name = "pvss_beacon"
version = "0.1.0"
edition = "2021"
publish = false

[dependencies]
ark-bls12-381 = "=0.3.0"
ark-ec = "=0.3.0"
ark-ff = "=0.3.0"
ark-serialize = "=0.3.0"
sha3 = "=0.10.9"
rand = "=0.8.8"
tokio = { version = "=1.53.2", features = ["full"] }
tokio-util = { version = "=0.7.19", features = ["codec"] }
futures = "=0.3.34"
