[package]
name = "mpid_messaging"
version = "0.1.0"
edition = "2021"
publish = false

[dependencies]
maidsafe_utilities = "*"
rand = "*"
sodiumoxide = "*"
xor_name = "*"
