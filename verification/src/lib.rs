//! Verified core of a small path-tracing renderer.
//!
//! The library owns the parts of the renderer whose behaviour is stated and
//! proved: the render configuration, the frame buffer with its byte-exact
//! pixel addressing, the plain-text image serializer, and the integrator's
//! scan/termination policy. Floating-point geometry (ray casts, intersection
//! tests, shading) lives in the surrounding application, which feeds its
//! results to the decision functions here as plain values.

pub mod config;
pub mod frame;
pub mod ppm;
pub mod trace;
