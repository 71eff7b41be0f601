[package]
name = "pacman"
version = "0.1.0"
edition = "2021"
publish = false

[dependencies]
rand = "=0.8.8"
serde = { version = "=1.0.229", features = ["derive"] }
serde_json = "=1.0.154"
wasm-bindgen = "=0.2.130"
gilrs = "=0.11.2"
hidapi = "=2.6.7"
objc2 = "0.6"
objc2-game-controller = "0.3"
