//! Verified building blocks of a 2D drawing canvas.
//!
//! * [`geometry::nurbs`] samples rational B-spline curves.
//! * [`graphics::dyn_vertex_buffer`] is the growable buffer that sampled
//!   geometry is collected in.
//! * [`scalar`] is the number interface that the geometric code is generic
//!   over, and [`fixed`] an exact implementation of it.
//! * [`geometry`], [`ui::docking`], [`event_handling`] and [`texture`] hold
//!   the rules that the canvas follows when it outlines regions, places its
//!   panels, shares input with the user interface and prepares textures.
//!
//! Every function states what it computes, and is proved to compute it and
//! not to panic. What is believed without proof are the two calls into
//! other crates in [`texture`], and of an implementation of
//! [`scalar::Scalar`] from outside this crate that its operations are the
//! functions it says they are.

pub mod event_handling;
pub mod fixed;
pub mod geometry;
pub mod graphics;
pub mod scalar;
pub mod texture;
pub mod ui;
