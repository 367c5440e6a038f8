[package]
name = "ghostzip"
version = "0.1.0"
edition = "2021"
publish = false

[dependencies]
crc32fast = "1"
uuid = { version = "1", features = ["v4"] }
zip = "2"
tar = "0.4"
flate2 = "1"
bzip2 = "0.4"
xz2 = "0.1"
sevenz-rust = "0.6"
sysinfo = "0.33"
parking_lot = "0.12"
serde = { version = "1", features = ["derive"] }
serde_json = "1"
thiserror = "2"
windows-sys = { version = "0.59", features = ["Win32_Foundation", "Win32_System_Ioctl", "Win32_System_IO"] }

[dev-dependencies]
tempfile = "3"
