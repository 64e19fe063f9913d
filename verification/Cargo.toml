[package]
name = "spreadsheet_builder"
version = "0.1.0"
edition = "2021"
publish = false

[dependencies]
indexmap = "*"
rustc_apfloat = "*"
rust_xlsxwriter = "*"
serde = "*"
csv = "*"
