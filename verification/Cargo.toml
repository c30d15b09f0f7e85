[package]
name = "midi_lattice"
version = "0.1.0"
edition = "2021"
publish = false

[dependencies]
heapless = "*"
triple_buffer = "*"
color_space = "*"
once_cell = "*"
