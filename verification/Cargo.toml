[package]
name = "amdgpu_profile_switcher"
version = "0.1.0"
edition = "2021"
publish = false

[dependencies]
libdrm_amdgpu_sys = { version = "=0.9.0", default-features = false, features = ["dynamic_loading"] }
ron = "=0.12.2"
serde = { version = "=1.0.229", features = ["derive"] }
log = "=0.4.34"
env_logger = "=0.11.11"
proc_prog_name = "=0.1.1"
