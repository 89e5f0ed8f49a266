[package]
name = "kr0ki_core"
version = "0.1.0"
edition = "2021"
publish = false

[dependencies]
sha2 = "0.10"
serde = { version = "1", features = ["derive"] }
serde_json = "1"
oxrdf = "*"
oxttl = "*"
syn = { version = "2", features = ["full", "visit"] }
quote = "1"
zip = { version = "*", default-features = false, features = ["deflate"] }
reqwest = { version = "0.12", default-features = false, features = ["json", "stream"] }
tokio = { version = "1", features = ["rt", "fs", "net", "macros", "time"] }
futures-util = "0.3"
thiserror = "1"
anyhow = "1"
walkdir = "2"
resvg = { version = "*", default-features = false }
usvg = { version = "*", default-features = false }
tiny-skia = "*"
toml = "*"
