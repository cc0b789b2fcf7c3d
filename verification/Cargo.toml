[package]
name = "usvg_colr"
version = "0.1.0"
edition = "2021"
publish = false

[dependencies]
log = "0.4"
rustybuzz = "*"
skrifa = "*"
tiny-skia-path = "0.11"
ttf-parser = "*"
xmlwriter = "0.1"
