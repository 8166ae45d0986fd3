[package]
name = "agent_runtime"
version = "0.1.0"
edition = "2021"
publish = false

[dependencies]
agent-client-protocol = "=2.2.0"
anyhow = "=1.0.104"
async-channel = "=2.5.0"
async-trait = "=0.1.92"
futures = "=0.3.34"
libc = "=0.2.191"
log = "=0.4.35"
serde_json = { version = "=1.0.154", features = ["preserve_order"] }
smol = "=2.0.2"
windows = { version = "0.62", features = ["Win32_Foundation", "Win32_Security", "Win32_System_JobObjects", "Win32_System_Threading"] }
