[package]
name = "vfio_fam"
version = "0.1.0"
edition = "2021"
publish = false

[dependencies]
libc = "*"
vfio-bindings = "*"
vmm-sys-util = "*"
