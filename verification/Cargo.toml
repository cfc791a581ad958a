[package]
name = "exprscript"
version = "0.1.0"
edition = "2021"
publish = false

[dependencies]
regex = "1"
rustc_apfloat = "0.2"
exitcode = "1"
