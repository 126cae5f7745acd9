//! A fractal clock: the second and minute hands of an analog clock
//! recursively spawn smaller copies of themselves at their tips.
//!
//! This crate holds the verified core: from a sampled wall-clock time and a
//! recursion depth it generates the whole tree of hand segments for one
//! frame, as exact integer data (angles in fixed fractions of a turn,
//! brightness as a rational).  Turning a segment into screen pixels with
//! `cos`/`sin` is left to the renderer around the library.

pub mod angle;
pub mod clock_time;
pub mod generator;
pub mod laws;
pub mod segment;
