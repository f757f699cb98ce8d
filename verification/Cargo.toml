[package]
name = "completeio"
version = "0.1.0"
edition = "2021"
publish = false

[dependencies]
async-task = "=4.7.1"
bit-set = "=0.5.3"
boot-time = "=0.1.3"
io-uring = "=0.6.4"
libc = "=0.2.191"
mio = { version = "0.8", features = ["os-ext", "os-poll"] }
once_cell = "=1.21.4"
rustix = { version = "=0.38.44", features = ["event"] }
slab = "=0.4.12"
socket2 = { version = "=0.5.10", features = ["all"] }
windows-sys = { version = "=0.48.0", features = ["Win32_Foundation", "Win32_Networking_WinSock", "Win32_Security", "Win32_Storage_FileSystem", "Win32_System_IO", "Win32_System_Pipes", "Win32_System_SystemServices", "Win32_System_Threading", "Win32_System_WindowsProgramming"] }
