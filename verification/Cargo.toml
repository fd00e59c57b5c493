[package]
name = "cuda_backend"
version = "0.1.0"
edition = "2021"
publish = false

[dependencies]
p3-field = "=0.4.3"
p3-koala-bear = "=0.4.3"
p3-dft = "=0.4.3"
p3-poseidon2 = "=0.4.3"
p3-symmetric = "=0.4.3"
openvm-stark-backend = "=2.0.1"

[dev-dependencies]
rand = "=0.9.5"
