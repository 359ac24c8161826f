use vstd::prelude::*;

pub mod text;
pub mod json;
pub mod config;
pub mod tracking;
pub mod order;
pub mod wallpaper;
pub mod registry;
pub mod dispatch;
pub mod http;
pub mod addon;
pub mod tray;
pub mod paths;
pub mod cli;
pub mod display;
pub mod appdata;
pub mod window;
pub mod shell;
pub mod daemon;
pub mod yaml;
pub mod sentinel;
pub mod report;
pub mod stats;
pub mod clock;
pub mod gpu;
pub mod media;
pub mod shell_message;

verus! {
}
