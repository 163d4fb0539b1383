//! Storage for what is drawn.

pub mod dyn_vertex_buffer;
