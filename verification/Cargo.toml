[package]
name = "geoconvert"
version = "0.1.0"
edition = "2021"
publish = false

[dependencies]
uuid = { version = "*", features = ["v4"] }
iron = "*"
router = "*"
mount = "*"
staticfile = "*"
handlebars-iron = "*"
params = "*"
logger = "*"
env_logger = "*"
mime = "0.2"
