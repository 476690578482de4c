[package]
name = "emoji_shortcode"
version = "0.1.0"
edition = "2021"
publish = false

[dependencies]
emojis = "=0.9.1"
itertools = "=0.15.0"
nu-plugin = "0.113.1"
nu-protocol = "0.113.1"
