//! Streaming encoder for 8-bit grayscale bitmap (BMP) files.
//!
//! The encoder turns a row-major buffer of gray samples into the bytes of a
//! BMP file and hands them, in file order and in pieces of at most four
//! bytes, to a [`ByteSink`]. It builds no copy of the file and allocates
//! nothing in proportion to the image.
//!
//! Every function is verified against a mathematical description of the
//! file: [`format::bmp_bytes`] is the byte sequence of the file for a given
//! header variant, image and dimensions, and the encoder is proved to
//! deliver exactly that sequence, or a leading part of it when the sink
//! refuses a write. The module [`reading`] proves what a reader finds in
//! such a file: the magic and the sizes, the gray palette, the rows in
//! bottom-up order, and every sample of the image.
//!
//! The sinks of this crate collect the file in memory, growing
//! ([`MemorySink`]) or within a fixed capacity ([`BoundedSink`]). Any other
//! destination implements [`RawSink`] and is passed in as [`Recorded`].

pub mod encoder;
pub mod endian;
pub mod format;
pub mod layout;
pub mod reading;
pub mod sink;

pub use encoder::{encode_grayscale, encode_with_header, EncodeError};
pub use layout::{compute_layout, row_pad_size, DibHeader, Layout};
pub use sink::{
    BoundedSink, ByteSink, MemorySink, NeverRefused, RawSink, Recorded, SinkFull,
};
