[package]
name = "fixed_width_biguint"
version = "0.1.0"
edition = "2021"
publish = false

[dependencies]
const-num-traits = "*"
modmath-cios = "*"
num-traits = "0.2"
