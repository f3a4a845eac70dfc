[package]
name = "syncfolder"
version = "0.1.0"
edition = "2021"
publish = false

[dependencies]
clap = "2"
ctrlc = "3"
fs_extra = "1"
notify = "4"
