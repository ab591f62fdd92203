[package]
name = "webterm"
version = "0.1.0"
edition = "2021"
publish = false

[dependencies]
wasm-bindgen = "0.2"
js-sys = "0.3"

[dependencies.web-sys]
version = "0.3"
features = ["Window", "Document", "Element", "HtmlElement", "HtmlInputElement", "HtmlAnchorElement", "EventTarget", "Event", "KeyboardEvent", "MouseEvent", "PointerEvent", "DomRect", "DocumentFragment", "Node", "Text"]
