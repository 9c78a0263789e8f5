//! Application-level building blocks.

pub mod about_window;
pub mod frame;
pub mod window_preset;
