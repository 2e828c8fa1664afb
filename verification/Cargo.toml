[package]
name = "waylandsfpanel"
version = "0.1.0"
edition = "2021"
publish = false

[dependencies]
smithay-client-toolkit = "0.12"
andrew = "0.3"
css-color = "*"
serde = "1"
serde_derive = "1"
