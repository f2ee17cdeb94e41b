[package]
name = "armx64"
version = "0.1.0"
edition = "2021"
publish = false

[dependencies]
yaxpeax-arch = "0.3"
yaxpeax-arm = "0.3"
object = "0.36"
memmap2 = "0.9"
libc = "0.2"
hashbrown = "0.14"
