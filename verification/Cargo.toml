[package]
name = "maze_generator"
version = "0.1.0"
edition = "2021"
publish = false

[dependencies]
petgraph = { version = "0.6", default-features = false, features = ["graphmap"] }
quickcheck = { version = "1", default-features = false }
