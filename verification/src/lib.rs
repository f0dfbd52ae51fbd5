use vstd::prelude::*;

pub mod text;
pub mod duration;
pub mod order;
pub mod workspace;
pub mod keybindings;
pub mod colors;
pub mod bar;
pub mod raster;
pub mod datetime;
pub mod battery;
pub mod display;
pub mod vpn;
pub mod keyboard;
pub mod power;
pub mod system;
pub mod network;
pub mod applets;
pub mod telemetry;
pub mod ipc;
pub mod apps;
pub mod input;
pub mod bar_client;
pub mod wallpaper;
pub mod connections;

verus! {
}
