[package]
name = "physics_simulation"
version = "0.1.0"
edition = "2021"
publish = false

[dependencies]
device_query = "1"
glam = "0.24"
glium = "0.32"
rand = "0.8"
tobj = "3"
