[package]
name = "rust_aws_security_reporter"
version = "0.1.0"
edition = "2021"
publish = false

[dependencies]
aws-config = { version = "=1.13.0", default-features = false, features = ["rt-tokio", "behavior-version-latest"] }
aws-sdk-iam = { version = "=1.131.0", default-features = false, features = ["rt-tokio"] }
aws-sdk-s3 = { version = "=1.155.0", default-features = false, features = ["rt-tokio"] }
aws-sdk-sts = { version = "=1.122.0", default-features = false, features = ["rt-tokio"] }
aws-types = "=1.7.0"
cached = { version = "=4.0.3", default-features = false }
clap = { version = "=4.6.7", features = ["derive"] }
tokio = { version = "=1.54.1", features = ["macros", "rt-multi-thread"] }
