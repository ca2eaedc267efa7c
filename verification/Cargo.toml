[package]
name = "kernel"
version = "0.1.0"
edition = "2021"
publish = false

[dependencies]
noto-sans-mono-bitmap = { version = "=0.3.2", features = ["font_weights_all", "raster_heights_all"] }
pc-keyboard = "=0.9.0"
bootloader_api = "=0.11.17"
bootloader = "=0.11.17"
x86_64 = { version = "=0.15.5", default-features = false, features = ["instructions", "abi_x86_interrupt", "const_fn", "asm_const"] }
spin = "=0.12.3"
conquer-once = "=0.4.0"
lazy_static = "=1.5.1"
pic8259 = "=0.11.0"
uart_16550 = "=0.9.0"
