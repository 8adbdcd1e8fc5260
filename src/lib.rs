//! A locally decodable dot pattern: every lattice point carries one of four
//! directions, and every six-by-six block of them determines the position of
//! its corner within one period of two shift-register sequences.

pub mod direction;
pub mod sequence;
pub mod matrix;
pub mod codec;
pub mod laws;
pub mod ingest;
pub mod text;
pub mod controls;
