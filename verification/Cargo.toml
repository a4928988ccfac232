[package]
name = "async_hid"
version = "0.1.0"
edition = "2021"
publish = false

[dependencies]
futures-channel = "0.3"
futures-lite = "2"
js-sys = "0.3"
wasm-bindgen = "0.2"
wasm-bindgen-futures = "0.4"
web-sys = { version = "0.3", features = ["Window", "Navigator", "Hid", "HidDevice", "HidDeviceFilter", "HidDeviceRequestOptions", "HidCollectionInfo", "HidConnectionEvent", "HidInputReportEvent"] }
