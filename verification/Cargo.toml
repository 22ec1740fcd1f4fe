[package]
name = "build198x"
version = "0.1.0"
edition = "2021"
publish = false

[dependencies]
format198x-sinclair-zx-spectrum-bas = "*"
format198x-commodore-c64-bas = "*"
format198x-sinclair-zx-spectrum-tap = "*"
format198x-sinclair-zx-spectrum-scr = "*"
format198x-commodore-c64-koala = "*"
format198x-commodore-c64-art-studio = "*"
format198x-commodore-amiga-ilbm = "*"
format198x-commodore-amiga-adf = "*"
image = { version = "0.25", default-features = false, features = ["png", "gif", "jpeg", "bmp"] }
