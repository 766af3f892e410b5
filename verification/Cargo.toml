[package]
name = "moonshine_util"
version = "0.1.0"
edition = "2021"
publish = false

[dependencies]
disqualified = "*"
bevy_app = "*"
bevy_ecs = "*"
bevy_log = "*"
bevy_platform = "*"
bevy_reflect = "*"
