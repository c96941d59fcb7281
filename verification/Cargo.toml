[package]
name = "pkm"
version = "0.1.0"
edition = "2021"
publish = false

[dependencies]
chrono = "=0.4.45"
clap = { version = "=4.6.7", features = ["env"] }
clap_complete = "=4.6.11"
convert_case = "=0.12.0"
env_logger = "*"
hex = "=0.4.3"
human-date-parser = "=0.3.1"
kanal = "=0.1.1"
log = "*"
markdown = "=1.0.0"
regex = "=1.13.1"
serde_json = "=1.0.151"
sha1 = "=0.11.0"
skim = "=5.7.4"
tera = "=2.4.0"
