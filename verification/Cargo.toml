[package]
name = "directx_shader_translate"
version = "0.1.0"
edition = "2021"
publish = false

[dependencies]
dxbc = "*"
llvm-bitcode = "*"
rspirv = "*"
png = "0.17"
ash = "0.37"
ash-window = "0.12"
winit = "0.28"
raw-window-handle = "0.5"
