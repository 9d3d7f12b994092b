[package]
name = "farm_rewards"
version = "0.1.0"
edition = "2021"
publish = false

[dependencies]
pinocchio = "=0.9.3"
pinocchio-associated-token-account = "=0.2.0"
pinocchio-pubkey = "=0.3.0"
pinocchio-system = "=0.3.0"
pinocchio-token = "=0.4.0"
thiserror = "=2.0.21"
