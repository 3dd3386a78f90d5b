//! A sparse Conway-style life board over the whole `i32 × i32` plane.
//!
//! Cells are addressed by a single ordered 64-bit key (see [`codec`]); the
//! set of live keys is the whole simulation state (see [`cells`]); one
//! generation is computed from an immutable snapshot by a two-pass
//! neighbour count (see [`engine`]); [`viewport`] and [`board`] map window
//! positions and visible grid cells onto the plane.
pub mod codec;
pub mod cells;
pub mod engine;
pub mod viewport;
pub mod board;
