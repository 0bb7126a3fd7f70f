[package]
name = "voicebot"
version = "0.1.0"
edition = "2021"
publish = false

[dependencies]
reqwest = { version = "*", default-features = false }
songbird = { version = "=0.6.0", default-features = false, features = ["driver", "gateway", "twilight"] }
tokio = { version = "=1.53.2", features = ["macros", "rt-multi-thread"] }
tracing = "=0.1.44"
twilight-gateway = { version = "=0.17.1", default-features = false }
twilight-http = { version = "=0.17.1", default-features = false }
twilight-model = "=0.17.1"
twilight-standby = "=0.17.0"
