//! A verified model of a text-mode display: a fixed grid of character cells
//! and a cursor-tracking writer with typewriter semantics (line wrap, newline,
//! replacement of non-printable bytes, and a silent drop once the bottom of
//! the screen is reached).

pub mod color;
pub mod laws;
pub mod surface;
pub mod writer;

pub use color::Color;
pub use surface::Cell;
pub use surface::Surface;
pub use writer::Writer;
