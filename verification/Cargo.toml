[package]
name = "rfid_audio"
version = "0.1.0"
edition = "2021"
publish = false

[dependencies]
clap = "=2.34.0"
embedded-hal = "=0.2.7"
hex = "=0.4.3"
libc = "=0.2.191"
linux-embedded-hal = "0.3"
log = "=0.4.34"
mfrc522 = "=0.2.0"
nix = "=0.17.0"
rodio = "=0.11.0"
syslog = "=5.0.0"
