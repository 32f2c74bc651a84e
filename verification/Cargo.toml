[package]
name = "rusty"
version = "0.1.0"
edition = "2021"
publish = false

[dependencies]
spin = "=0.12.3"
x86_64 = "=0.15.5"
bootloader_api = "=0.11.17"
pic8259 = "=0.11.0"
ttf-parser = "=0.25.1"
wasmi = "=2.0.0"
crab-usb = "=0.12.1"
dma-api = "=0.10.2"
ax-crate-interface = "=0.5.8"
ax-sync = "=0.6.0"
