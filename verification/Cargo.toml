[package]
name = "starwalk"
version = "0.1.0"
edition = "2021"
publish = false

[dependencies]
rand = "*"
rand_pcg = "*"
rand_seeder = "*"
