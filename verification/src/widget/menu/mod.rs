//! Menu building blocks.

pub mod key_bind;
