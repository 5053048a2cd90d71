[package]
name = "paper_experiments"
version = "0.1.0"
edition = "2021"
publish = false

[dependencies]
async-trait = "=0.1.92"
bytes = "=1.12.1"
log = "=0.4.34"
remotia = { version = "=0.1.6", features = ["buffers", "capture", "profilation"] }
scrap = "=0.5.0"
tokio = { version = "=1.54.1", features = ["time"] }
y4m = "=0.8.0"
