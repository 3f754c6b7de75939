[package]
name = "phase2"
version = "0.2.2"
edition = "2021"
publish = false

[dependencies]
bellman = "0.14"
blake2-rfc = "0.2"
bls12_381 = "0.8"
byteorder = "1"
ff = "0.13"
group = "0.13"
pairing = "0.23"
rand = "0.8"
rand_chacha = "0.3"
