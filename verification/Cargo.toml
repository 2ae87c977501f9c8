[package]
name = "aarch64-air-lifter"
version = "0.1.0"
edition = "2021"
publish = false

[dependencies]
tnj-pcc = "=0.3.0"
target-lexicon = "=0.12.16"
thiserror = "=1.0.69"
yaxpeax-arch = "=0.3.3"
yaxpeax-arm = "=0.3.1"

[dev-dependencies]
filecheck = "=0.5.0"
