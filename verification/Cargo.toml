[package]
name = "push_config_injecter"
version = "0.1.0"
edition = "2021"
publish = false

[dependencies]
rcgen = { version = "=0.11.3", features = ["x509-parser"] }
rustls-pemfile = "=1.0.4"
rustls = "=0.20.9"
actix-web = { version = "=4.15.0", default-features = false, features = ["macros", "rustls"] }
kube = { version = "=0.87.2", default-features = false, features = ["client", "rustls-tls", "admission"] }
k8s-openapi = { version = "=0.20.0", default-features = false, features = ["v1_28"] }
json-patch = "=1.4.0"
serde_json = "=1.0.151"
anyhow = "=1.0.104"
log = "=0.4.34"
env_logger = { version = "=0.10.2", default-features = false }
