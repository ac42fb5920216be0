[package]
name = "zzz"
version = "0.1.0"
edition = "2021"
publish = false

[dependencies]
chrono = "0.4"
regex = "1"
serde = { version = "1", features = ["derive"] }
serde_json = "1"
egui = "0.29"
syntect = { version = "5", default-features = false, features = ["parsing", "default-syntaxes", "default-themes", "regex-fancy"] }
lru = "0.12"
image = { version = "0.25", default-features = false, features = ["png"] }
tokio = { version = "1", features = ["full"] }
reqwest = { version = "0.12", default-features = false, features = ["json", "blocking", "stream"] }
directories = "5"
zip = { version = "2", default-features = false, features = ["deflate"] }
tempfile = "3"
crossbeam-channel = "0.5"
nix = { version = "0.29", features = ["signal"] }
lsp-types = "0.94"
futures-util = "0.3"
bytes = "1"
libloading = "0.8"
