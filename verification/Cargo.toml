[package]
name = "soapysdr"
version = "0.4.0"
edition = "2021"
publish = false

[dependencies]
num-complex = "*"
byteorder = "*"
getopts = "*"
signalbool = "*"
