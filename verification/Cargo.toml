[package]
name = "oxigraph_read"
version = "0.1.0"
edition = "2021"
publish = false

[dependencies]
oxiri = "=0.2.11"
quick-xml = "=0.23.1"
rio_api = "=0.7.1"
rio_turtle = "=0.7.1"
rio_xml = "=0.7.3"
rand = "=0.8.8"
