[package]
name = "swig_typemap"
version = "0.1.0"
edition = "2021"
publish = false

[dependencies]
proc-macro2 = { version = "=0.4.30", default-features = false, features = ["span-locations"] }
quote = { version = "=0.6.13", default-features = false }
rustc-hash = "=1.1.0"
smallvec = "=0.6.14"
smol_str = "=0.1.24"
syn = { version = "=0.15.44", default-features = false, features = ["parsing", "printing", "clone-impls", "full", "extra-traits"] }
