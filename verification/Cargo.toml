[package]
name = "dupe_krill"
version = "1.4.9"
edition = "2021"
publish = false

[dependencies]
ctrlc = "3"
getopts = "0.2"
libc = "0.2"
rayon = "1"
serde = "1"
serde_derive = "1"
serde_json = "1"
sha1 = "0.6"

[dev-dependencies]
tempdir = "0.3"
