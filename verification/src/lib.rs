//! Reading, editing and writing PNG chunk streams, in order to carry a hidden
//! message inside an otherwise valid image file.
//!
//! The crate is verified with Verus. Each type has a mathematical view, the
//! byte layout is given as `spec` functions over `Seq<u8>`, and every
//! executable function states its result in terms of them.

pub mod args;
pub mod checksum;
pub mod chunk;
pub mod chunk_type;
pub mod commands;
pub mod endian;
pub mod error;
pub mod png;
pub mod text;
