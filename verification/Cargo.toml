[package]
name = "ochd"
version = "0.1.0"
edition = "2021"
publish = false

[dependencies]
palette = "0.7"
resvg = "0.37"
oxipng = "9"
zip = "2"
bitstream-io = "2"
tokio = { version = "1", features = ["rt-multi-thread", "time"] }
futures-util = "0.3"
log = "0.4"
once_cell = "1"
lockfree-object-pool = "0.1"
itertools = "0.12"
anyhow = "1"
tracing = "0.1"
tracing-subscriber = "0.3"
parking_lot = "0.12"
bytemuck = "1"
