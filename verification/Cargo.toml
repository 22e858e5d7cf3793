[package]
name = "duplicate_photo_cleaner"
version = "0.1.0"
edition = "2021"
publish = false

[dependencies]
crossbeam-channel = "*"
zune-jpeg = "*"
zune-core = "*"
image = "*"
fast_image_resize = "*"
image_hasher = "*"
xxhash-rust = { version = "*", features = ["xxh3"] }
walkdir = "*"
rusqlite = { version = "*", features = ["bundled"] }
memmap2 = "*"
clap = { version = "*", features = ["derive"] }
chrono = "*"
kamadak-exif = "*"
notify = "*"
uuid = { version = "*", features = ["v4"] }
serde = { version = "*", features = ["derive"] }
serde_json = "*"
rayon = "*"
