[package]
name = "eventsdb"
version = "0.1.0"
edition = "2021"
publish = false

[dependencies]
aws-sdk-dynamodb = { version = "*", default-features = false }
async-trait = "*"
