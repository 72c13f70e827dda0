[package]
name = "llm_chat"
version = "0.1.0"
edition = "2021"
publish = false

[dependencies]
anyhow = "1"
console_error_panic_hook = "0.1"
futures-util = "0.3"
js-sys = "0.3"
pulldown-cmark = "*"
reqwest = { version = "*", features = ["json", "stream"] }
serde = { version = "1", features = ["derive"] }
serde_json = "1"
tiktoken-rs = "*"
uuid = { version = "1", features = ["v4"] }
wasm-bindgen = "0.2"
wasm-bindgen-futures = "0.4"
web-sys = { version = "0.3", features = ["Window", "Storage", "File", "FileList", "FileReader", "HtmlInputElement", "HtmlTextAreaElement", "HtmlSelectElement", "Event", "EventTarget", "KeyboardEvent", "MouseEvent", "InputEvent", "SubmitEvent", "ProgressEvent"] }
yew = { version = "0.21", features = ["csr"] }
