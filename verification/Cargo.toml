[package]
name = "lexical_analyse"
version = "0.1.0"
edition = "2021"
publish = false

[dependencies]
erg_common = "=0.6.53"
erg_compiler = "=0.6.53"
pylyzer_core = "=0.0.82"
rustpython-parser = "=0.4.0"
