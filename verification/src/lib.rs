//! A terminal image viewer's core: gallery navigation, image geometry and
//! the kitty graphics protocol commands it writes to the terminal.
pub mod app;
pub mod args;
pub mod detect_support;
pub mod diacritics;
pub mod geometry;
pub mod protocol;
pub mod renderer;
pub mod stiv_event;
pub mod stiv_image;
pub mod text;
pub mod ui;
pub mod utils;
pub mod win_info;
