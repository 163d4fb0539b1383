//! Layout of the panels around the canvas.

pub mod docking;
