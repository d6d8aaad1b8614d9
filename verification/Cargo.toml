[package]
name = "procmem"
version = "0.1.0"
edition = "2021"
publish = false

[dependencies]
open = "5"
tauri = { version = "2", default-features = false, features = ["wry"] }
winapi = { version = "0.3", features = ["handleapi", "memoryapi", "minwindef", "processthreadsapi", "psapi", "tlhelp32", "winnt"] }
