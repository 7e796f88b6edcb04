[package]
name = "laplace"
version = "0.1.0"
edition = "2021"
publish = false

[dependencies]
goblin = "0.9"
vm-fdt = "0.3"
rand = "0.9"
rand_chacha = "0.9"
libc = "0.2"
libm = "0.2"
kvm-ioctls = "*"
kvm-bindings = "*"
boa_engine = "0.21"
boa_runtime = "0.21"
v8 = "*"
