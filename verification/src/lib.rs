//! Core of an NFF-driven ray tracer: the scene-description parser, the PPM
//! image encoding, and the axis bookkeeping shared with the space partition.
//!
//! Scene geometry is described by the NFF text format.  The parser reads the
//! raw bytes into a structured script in which every numeric scalar is kept
//! as its validated source text, so that a rendering front end can bind the
//! scalars to whatever arithmetic it uses without re-deriving the grammar.

pub mod axis;
pub mod nff;
pub mod ppm;
pub mod script;
pub mod text;

