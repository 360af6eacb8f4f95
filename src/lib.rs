//! Integer core of a terminal ray-marching renderer: the brightness-to-glyph
//! table, the row-major frame buffer, the text canvas and the decisions of
//! the sphere tracer. The floating-point geometry and shading live with the
//! caller, which hands the library plain values.

pub mod glyph;
pub mod march;
pub mod frame;
pub mod canvas;
