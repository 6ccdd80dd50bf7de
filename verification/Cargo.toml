[package]
name = "can_flash"
version = "0.1.0"
edition = "2021"
publish = false

[dependencies]
actix-web = "=4.18.1"
can-hal-kvaser = "=0.4.3"
can-hal-rs = "=0.4.3"
thiserror = "=2.0.21"
