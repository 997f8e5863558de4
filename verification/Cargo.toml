[package]
name = "robot_arm"
version = "0.1.0"
edition = "2021"
publish = false

[dependencies]
glium = "0.33"
rand = "0.8"
winit = "0.28"
