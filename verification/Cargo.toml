[package]
name = "bandersnatch_glv"
version = "0.1.0"
edition = "2021"
publish = false

[dependencies]
ark-ec = "0.4.2"
ark-ed-on-bls12-381-bandersnatch = "0.4.0"
ark-ff = "0.4.2"
ark-std = "0.4.0"
num-bigint = "0.4"
