[package]
name = "terra_lock"
version = "0.1.0"
edition = "2021"
publish = false

[dependencies]
macroquad = "0.4"
log = "0.4"
console_log = "1"
console_error_panic_hook = "0.1"
wasm-bindgen = "0.2"
wasm-bindgen-futures = "0.4"
