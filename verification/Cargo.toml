[package]
name = "lorenz_plot"
version = "0.1.0"
edition = "2021"
publish = false

[dependencies]
futures = "*"
plotters = "*"
plotters-canvas = "*"
web-sys = { version = "*", features = ["HtmlCanvasElement"] }
yew = { version = "*", features = ["csr"] }
