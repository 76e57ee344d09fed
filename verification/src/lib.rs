//! Encoding of numeric arrays into the NPY array interchange format.
//!
//! An NPY file is a fixed signature and version, a two-byte little-endian
//! header length, a textual header that names the element type and the
//! shape, and the elements themselves, row-major, with no padding.
//!
//! Everything here computes bytes; nothing here performs I/O. The sink of
//! every writer is a `Vec<u8>`, and each contract states the exact bytes
//! that are appended to it.

pub mod ascii;
pub mod byte_order;
pub mod decimal;
pub mod element;
pub mod emit;
pub mod header;
pub mod serializeable;
pub mod shape;

pub use crate::byte_order::ByteOrder;
pub use crate::element::{Element, ElementType, Float32, Float64};
pub use crate::emit::{npy, npy_for, save, save_for, SaveError};
pub use crate::header::{build_header, build_header_for};
pub use crate::serializeable::{reshape, Reshaped, Serializeable};
