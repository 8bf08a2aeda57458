[package]
name = "fastfileocr_core"
version = "0.1.0"
edition = "2021"
publish = false

[dependencies]
base64 = "0.22"
serde = { version = "1", features = ["derive"] }
serde_json = "1"
semver = "1"
pulldown-cmark = { version = "0.13", default-features = false, features = ["html"] }
ammonia = "4"
scraper = "0.23"
uuid = { version = "1", features = ["v4"] }
sha2 = "0.10"
reqwest = { version = "0.12", default-features = false, features = ["blocking", "json", "rustls-tls"] }
tempfile = "3"
zip = { version = "2", default-features = false, features = ["deflate"] }
image = { version = "0.25", default-features = false, features = ["png", "jpeg", "webp", "bmp"] }
libloading = "0.8"
windows-sys = { version = "0.59", features = ["Win32_System_Registry", "Win32_Foundation", "Win32_System_JobObjects", "Win32_System_SystemInformation", "Win32_Security", "Win32_System_Threading"] }
pdfium-render = "0.8"
arboard = "3"
ort = { version = "2.0.0-rc.10", default-features = false, features = ["load-dynamic", "ndarray"] }
