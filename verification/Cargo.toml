[package]
name = "jj-navi"
version = "0.1.3"
edition = "2021"
publish = false

[dependencies]
anstyle = "1"
clap = { version = "4", features = ["derive"] }
clap_complete = { version = "4", features = ["unstable-dynamic"] }
pathdiff = "0.2"
semver = "1"
serde = { version = "1", features = ["derive"] }
serde_json = "1"
thiserror = "2"
time = { version = "0.3", features = ["formatting", "parsing"] }
toml = "0.8"
toml_edit = "0.22"
