[package]
name = "hivemind"
version = "0.1.0"
edition = "2021"
publish = false

[dependencies]
screeps-game-api = "=0.23.5"
wasm-bindgen = "*"
js-sys = "*"
web-sys = { version = "*", features = ["console"] }
serde = { version = "*", features = ["derive"] }
serde_json = "*"
console_error_panic_hook = "*"
