[package]
name = "termris"
version = "0.1.0"
edition = "2021"
publish = false

[dependencies]
rand = "=0.8.8"
crossterm = "=0.27.0"
prayterm = "=1.0.1"
mvc-rs = "=3.3.0"
