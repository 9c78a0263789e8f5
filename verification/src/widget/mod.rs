//! Widgets of the toolkit, as far as their logic goes.

pub mod menu;
pub mod header_bar;
pub mod tab_bar;
pub mod text;

pub use header_bar::{header_bar, HeaderBar};
