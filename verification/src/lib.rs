//! A verified, type-directed codec for one fixed geometric record.
//!
//! The record — a `Point` holding a square, a sequence and a mapping of
//! 2-vectors, a 3-vector and a 4x4 matrix — is written to and read from
//! two human-readable encodings over one shared value-tree shape. Two
//! foreign-type adapter styles are shown: a mirror twin for a value used
//! directly as a field, and a newtype wrapper for a value used inside a
//! container.

pub mod codec;
pub mod decode;
pub mod encode;
pub mod laws;
pub mod model;
pub mod numtext;
pub mod value;
pub mod vec2seq;
