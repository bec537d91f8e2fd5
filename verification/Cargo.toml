[package]
name = "branch_switcher"
version = "0.1.0"
edition = "2021"
publish = false

[dependencies]
git2 = { version = "=0.21.0", features = ["ssh"] }
termion = "=1.5.6"
tui = { version = "=0.19.0", default-features = false, features = ["termion"] }
