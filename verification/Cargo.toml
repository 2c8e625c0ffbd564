[package]
name = "solanum"
version = "0.1.0"
edition = "2021"
publish = false

[dependencies]
chrono = { version = "0.4", default-features = false, features = ["clock"] }
log = "0.4"
log4rs = "1"
mio = { version = "1", features = ["os-poll", "os-ext", "net"] }
nix = { version = "0.29", features = ["signal", "process", "fs"] }
postgres = { version = "0.19", features = ["with-chrono-0_4"] }
