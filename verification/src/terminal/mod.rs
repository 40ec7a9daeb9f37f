//! Colours shared by the display and its renderers.

pub mod brush;
pub mod monochrome;

pub use monochrome::Monochrome;
