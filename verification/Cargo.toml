[package]
name = "gitg"
version = "0.1.0"
edition = "2021"
publish = false

[dependencies]
asyncgit = "=0.28.1"
easy-cast = ">=0.5, <0.5.5"
git2 = { version = "=0.20.4", default-features = false }
kstring = ">=2.0, <2.0.3"
libgit2-sys = "=0.18.3"
notify = "=8.2.0"
tokio = { version = "=1.53.2", features = ["rt-multi-thread", "macros", "time"] }

[dev-dependencies]
tempfile = "=3.27.0"
