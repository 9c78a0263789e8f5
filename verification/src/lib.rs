//! Key bindings, window presets and header bar logic of the COSMIC toolkit.

pub mod strings;
pub mod font;

pub mod keyboard;
pub mod widget;
pub mod shortcuts;
pub mod app;
pub mod theme;
