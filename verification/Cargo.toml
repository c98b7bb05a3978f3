[package]
name = "iced_a11y"
version = "0.1.0"
edition = "2021"
publish = false

[dependencies]
accesskit = "*"
accesskit_winit = "*"
winit = "*"
futures = "*"
