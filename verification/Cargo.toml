[package]
name = "chip8"
version = "0.1.0"
edition = "2021"
publish = false

[dependencies]
rand = "0.8"
sdl2 = "*"
gl = "*"
imgui = "0.7"
imgui-sdl2 = "*"
imgui-opengl-renderer = "*"
tinyfiledialogs = "*"
