[package]
name = "skeletal_animation"
version = "0.1.0"
edition = "2021"
publish = false

[dependencies]
collada = "*"
dual_quaternion = "*"
gfx = "*"
gfx_debug_draw = "*"
interpolation = "*"
piston-float = "*"
piston-gfx_texture = "*"
quaternion = "*"
rustc-serialize = "*"
vecmath = "*"
