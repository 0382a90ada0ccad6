//! Verified core of a Mandelbrot-set viewer.
//!
//! The complex plane is modelled with exact decimal fixed-point numbers
//! (six decimal places), so every coordinate computation — pixel-to-plane
//! mapping, escape-time iteration, colour mapping and the pan/zoom
//! transforms — is deterministic integer arithmetic with a proved contract.

pub mod color;
pub mod control;
pub mod escape;
pub mod fixed;
pub mod frame;
pub mod plane;
