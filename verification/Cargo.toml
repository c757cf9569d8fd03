[package]
name = "osu_directer"
version = "0.1.0"
edition = "2021"
publish = false

[dependencies]
regex = "1"
osu-db = { version = "*", default-features = false }
serde = { version = "1", features = ["derive"] }
serde_json = "1"
structopt = "0.3"
simplelog = "*"
log = "0.4"
anyhow = "1"
reqwest = { version = "*", default-features = false, features = ["blocking", "rustls-tls"] }
winreg = "*"
windows-sys = { version = "*", features = ["Win32_UI_Shell", "Win32_Foundation", "Win32_System_Com"] }
