[package]
name = "awsome"
version = "0.1.0"
edition = "2021"
publish = false

[dependencies]
ulid = "=1.2.1"
serde = { version = "1", features = ["derive"] }
serde_yaml = "=0.9.34"
clap = { version = "4", features = ["derive"] }
directories = "5"
aws-config = "1"
aws-sdk-lambda = "1"
aws-sdk-s3 = "1"
aws-smithy-runtime-api = "=1.19.0"
