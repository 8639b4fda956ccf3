[package]
name = "treequery"
version = "0.1.0"
edition = "2021"
publish = false

[dependencies]
anyhow = "=1.0.104"
async-graphql-parser = "=2.11.3"
kdl = "=4.7.1"
serde_yaml = "=0.9.34"
trustfall = "=0.4.0"
trustfall_core = "=0.4.0"
