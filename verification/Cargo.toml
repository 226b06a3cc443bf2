[package]
name = "nioruntime_evh"
version = "0.1.0"
edition = "2021"
publish = false

[dependencies]
rustls = "0.20"
rustls-pemfile = "1"
rand = "0.8"
bitvec = "1"
libc = "0.2"
errno = "0.3"
