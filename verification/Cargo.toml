[package]
name = "mux-compiler"
version = "0.1.0"
edition = "2021"
publish = false

[dependencies]
anstream = "=1.0.0"
anstyle = "=1.0.14"
clap = { version = "=4.6.7", features = ["derive"] }
fs2 = "=0.4.3"
inkwell = { version = "=0.11.0", features = ["llvm22-1-no-llvm-linking"] }
unicode-width = "=0.2.3"
windows-sys = { version = "=0.61.2", features = ["Win32_Foundation", "Win32_Storage_FileSystem"] }
