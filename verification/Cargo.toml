[package]
name = "ecc_circuit"
version = "0.1.0"
edition = "2021"
publish = false

[dependencies]
halo2curves = "*"
halo2_proofs = "*"
halo2-base = "*"
halo2-ecc = "*"
log = "*"
