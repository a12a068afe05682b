[package]
name = "bootmem"
version = "0.1.0"
edition = "2021"
publish = false

[dependencies]
spin = "*"
crossbeam = "*"
arrayvec = "*"
enum-map = "*"
derive_more = "0.99"
bitflags = "*"
psf2 = "*"
utf16_lit = "*"
utf16_literal = "*"
