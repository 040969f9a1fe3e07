[package]
name = "gpu_usage_waybar"
version = "0.1.0"
edition = "2021"
publish = false

[dependencies]
amdgpu-sysfs = "*"
clap = { version = "4", features = ["derive"] }
color-eyre = "*"
etcetera = "*"
nvml-wrapper = "*"
procfs = "*"
regex = "1"
serde = { version = "1", features = ["derive"] }
smart-default = "*"
sonic-rs = "*"
toml = "*"
udev = "*"
uom = "*"
