//! Video wallpaper selection: the decisions and text handling behind a
//! gallery that applies video wallpapers through mpvpaper.
pub mod text;
pub mod gpu;
pub mod util;
pub mod video_scanner;
pub mod thumbnails;
pub mod json;
pub mod monitors;
pub mod theming;
pub mod config;
pub mod settings;
pub mod gallery;
pub mod mpvpaper;
pub mod startup;
