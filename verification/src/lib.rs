//! Hides one raster image inside the fully transparent pixels of another,
//! and reads it back.
//!
//! A carrier is a buffer of interleaved RGBA pixels. A pixel whose alpha byte
//! is zero is a slot: its red, green and blue bytes are invisible and can
//! carry data. Slots are taken in buffer order, row by row, and their colour
//! bytes, three for each slot, form the lane stream of the carrier.
//!
//! # Layout of an embedded image
//!
//! ```text
//! lanes 0..4    width of the sub-image, 32 bits
//! lanes 4..8    height of the sub-image, 32 bits
//! lanes 8..     pixel bytes of the sub-image, row by row, R G B (or R G B A)
//! ```
//!
//! The two dimensions are written in one byte order, which the caller picks
//! when the carrier is made; [`header::ByteOrder::native`] gives the order of
//! the running machine. The header has no padding.
//!
//! The alpha byte of a slot is never written. A slot therefore stays a slot
//! after it has received data, the carrier offers the same slots before and
//! after embedding, and extraction finds the data by the same traversal.
//! Colour bytes are stored as they are: black pixels need no special
//! treatment, because nothing but the alpha byte marks a slot.
//!
//! # Modules
//!
//! - [`header`]: the eight-byte size header.
//! - [`lanes`]: the carrier as a mathematical sequence: slots, lanes, and
//!   what writing into them means.
//! - [`scan`]: the walks over a carrier buffer.
//! - [`img`]: a carrier with its sub-image: embedding and extraction.
//! - [`output`]: the choice of the pixel layout in which a carrier is saved.
//! - [`error`]: the errors.

pub mod error;
pub mod header;
pub mod img;
pub mod lanes;
pub mod output;
pub mod scan;
