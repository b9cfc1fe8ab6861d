[package]
name = "opensuperwhisper"
version = "0.1.0"
edition = "2021"
publish = false

[dependencies]
autocorrect = "2"
serde = { version = "1", features = ["derive"] }
serde_json = "1"
chrono = { version = "0.4", default-features = false, features = ["clock"] }
hound = "3.5"
rusqlite = { version = "0.32", features = ["bundled"] }
arboard = { version = "3", default-features = false }
enigo = "0.1"
whisper-rs = "0.16"
tokio = { version = "1", features = ["sync", "time", "macros", "rt"] }
futures-util = "0.3"
reqwest = { version = "0.12", default-features = false, features = ["stream", "rustls-tls"] }
