[package]
name = "uniparc_xml_parser"
version = "0.1.0"
edition = "2021"
publish = false

[dependencies]
quick-xml = "*"
flate2 = "*"
clap = "*"
