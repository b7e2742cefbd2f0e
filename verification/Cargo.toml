[package]
name = "bpf_element"
version = "0.1.0"
edition = "2021"
publish = false

[dependencies]
anyhow = "*"
flex-dns = "*"
network-types = "*"
