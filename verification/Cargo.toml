[package]
name = "gunyah_vmm"
version = "0.1.0"
edition = "2021"
publish = false

[dependencies]
anyhow = "1"
clap = { version = "4", features = ["derive"] }
libc = "0.2"
memmap = "0.7"
nix = { version = "0.27", features = ["ioctl", "fs", "event"] }
page_size = "0.6"
same-file = "1"
thiserror = "1"
vm-fdt = "0.3"
vm-superio = "0.7"
