[package]
name = "xfs_win_driver"
version = "0.1.0"
edition = "2021"
publish = false

[dependencies]
am-fs-core = "=0.2.24"
am-fs-xfs = "=0.11.0"
anyhow = "1"
ctrlc = "3"
serde = { version = "1", features = ["derive"] }
serde_json = "1"
widestring = "=1.2.1"
windows = { version = "=0.61.3", features = ["Win32_Foundation", "Win32_Storage_FileSystem"] }
winfsp = "=0.13.2"
