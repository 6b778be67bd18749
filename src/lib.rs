//! The exact core of a small ray tracer: which sensor position each pixel's
//! primary ray passes through, which of the elements a ray hits is the
//! nearest, and a frame buffer that a render pass fills one pixel at a time.
//! The floating-point geometry and shading are supplied by the caller.
pub mod camera;
pub mod image;
pub mod render;
pub mod trace;
