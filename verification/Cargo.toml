[package]
name = "android_loader"
version = "0.1.0"
edition = "2021"
publish = false

[dependencies]
anyhow = "=1.0.104"
elfloader = "=0.16.0"
memmap2 = "=0.9.12"
region = "=4.0.1"
xmas-elf = "=0.8.0"
