//! Index geometry and control logic of a Horn-Schunck optical-flow toolkit.
//!
//! The floating-point arithmetic of the solvers lives outside this crate; what
//! is verified here is everything that decides *where* values are read and
//! written, *which* frames are paired, and *what* the display loop does next.
pub mod grid;
pub mod stencil;
pub mod scale;
pub mod pyramid;
pub mod camera;
pub mod display;
pub mod video;
