[package]
name = "vs_placebo"
version = "0.1.0"
edition = "2021"
publish = false

[dependencies]
const-str = "*"
foreign-types = "*"
miette = "*"
vapoursynth4-rs = "*"
