[package]
name = "hyprland_autoname_workspaces"
version = "0.1.0"
edition = "2021"
publish = false

[dependencies]
hyprland = "0.4.0-beta.2"
inotify = "0.10"
regex = "1"
