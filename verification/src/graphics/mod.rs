pub mod buffer;
pub mod color;
pub mod draw;

pub use color::Color;
pub mod ui;
