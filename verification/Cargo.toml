[package]
name = "daw_modules"
version = "0.1.0"
edition = "2021"
publish = false

[dependencies]
anyhow = "=1.0.104"
cpal = "=0.15.3"
crossterm = "=0.28.1"
hound = "=3.5.1"
ringbuf = "=0.4.8"
rubato = "=0.15.0"
rustfft = "=6.4.1"
serde = { version = "=1.0.229", features = ["derive"] }
serde_json = "1"
symphonia = "=0.5.5"
