[package]
name = "sara_ecs"
version = "0.1.0"
edition = "2021"
publish = false

[dependencies]
thiserror = "*"
