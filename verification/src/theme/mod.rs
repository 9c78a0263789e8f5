//! How the toolkit's widgets take their look from the active theme.

pub mod style;

pub use style::button::Button;
