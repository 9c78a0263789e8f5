//! Style sheets of the toolkit's widgets.

pub mod button;
