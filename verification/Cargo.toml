[package]
name = "procmod_hook"
version = "0.1.0"
edition = "2021"
publish = false

[dependencies]
iced-x86 = { version = "=1.22.0", default-features = false, features = ["std", "decoder", "encoder", "block_encoder", "instr_info"] }
libc = "=0.2.191"
thiserror = "=2.0.21"
windows-sys = { version = "=0.59.0", features = ["Win32_Foundation", "Win32_System_Memory"] }
