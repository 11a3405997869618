[package]
name = "route2wsl"
version = "0.1.0"
edition = "2021"
publish = false

[dependencies]
chrono = "=0.4.45"
clap = { version = "=4.6.7", features = ["derive"] }
fern = "=0.7.1"
ipnetwork = "=0.21.1"
log = "=0.4.34"
network-interface = "=2.0.5"
serde = { version = "=1.0.229", features = ["derive"] }
serde_json = "=1.0.154"
windows = { version = "=0.60.0", features = ["Win32_Foundation", "Win32_NetworkManagement_IpHelper", "Win32_NetworkManagement_Ndis", "Win32_Networking_WinSock", "Win32_System_HostComputeNetwork", "Win32_System_HostComputeSystem"] }
windows-args = "=0.2.0"
windows-service = "=0.8.1"
