[package]
name = "oyasumi"
version = "0.1.0"
edition = "2021"
publish = false

[dependencies]
rodio = "=0.22.2"
tokio = { version = "=1.54.1", features = ["full"] }
log = "=0.4.35"
serde = { version = "=1.0.229", features = ["derive"] }
serde_repr = "=0.1.21"
sysinfo = "=0.40.1"
notify = "=8.2.1"
glam = "=0.34.2"
os-release = "=0.1.0"
tz-rs = "=0.7.3"
term_size = "=0.3.2"
time = { version = "=0.3.55", features = ["formatting", "parsing", "local-offset"] }
env_logger = "=0.11.11"
futures = "=0.3.34"
dbus = "=0.9.12"
config = "=0.15.27"
