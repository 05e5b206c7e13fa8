[package]
name = "point_in_polygon"
version = "0.1.0"
edition = "2021"
publish = false

[dependencies]
snafu = "*"
thiserror = "*"
