[package]
name = "skeletal_anim"
version = "0.1.0"
edition = "2021"
publish = false

[dependencies]
mapgraph = "=0.12.0"
ozz-animation-rs = "=0.10.2"
glam = "=0.34.1"
bytemuck = "=1.25.2"
web-time = "=1.1.0"
