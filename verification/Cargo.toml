[package]
name = "supamonitor"
version = "0.1.0"
edition = "2021"
publish = false

[dependencies]
hash32 = "=0.3.1"
heapless = "=0.9.3"
pgrx = { version = "=0.16.1", features = ["pg17"] }
