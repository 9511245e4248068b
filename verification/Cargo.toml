[package]
name = "system_theme"
version = "0.1.0"
edition = "2021"
publish = false

[dependencies]
lightningcss = "=1.0.0-alpha.72"
palette = "=0.7.7"
egui = "=0.28.1"
epaint = "=0.28.1"
dark-light = "=1.1.1"
configparser = "=3.3.0"
once_cell = "=1.21.4"
