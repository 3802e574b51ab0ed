//! Sizes and offsets of the sections of a grayscale BMP file.

use vstd::prelude::*;

verus! {

/// Size in bytes of the file header that opens every BMP file.
pub const FILE_HEADER_SIZE: u32 = 14;

/// Size in bytes of the minimal informational DIB header.
pub const INFO_HEADER_SIZE: u32 = 40;

/// Size in bytes of the extended DIB header with channel masks.
pub const V4_HEADER_SIZE: u32 = 108;

/// Bytes written per pixel: one, the depth being 8 bits.
pub const PIXEL_SIZE: u32 = 1;

/// Number of entries in the grayscale palette.
pub const PALETTE_COLORS: u32 = 256;

/// Size in bytes of the palette, each entry taking four bytes.
pub const PALETTE_SIZE: u32 = 1024;

/// Compression tag of a file without compression.
pub const COMPRESSION_NONE: u32 = 0;

/// Compression tag that announces channel bit masks.
pub const COMPRESSION_BITFIELDS: u32 = 3;

/// The variant of the DIB header that a file carries.
#[derive(Clone, Copy, Debug, PartialEq, Eq, Structural)]
pub enum DibHeader {
    /// The minimal 40-byte informational header; the file is uncompressed.
    Info,
    /// The extended 108-byte header, which adds channel masks, a colour
    /// space tag and twelve reserved words.
    V4,
}

impl DibHeader {
    /// Size in bytes of this header variant.
    pub open spec fn spec_size(self) -> int {
        match self {
            DibHeader::Info => 40,
            DibHeader::V4 => 108,
        }
    }

    /// Compression tag that this header variant announces.
    pub open spec fn spec_compression(self) -> int {
        match self {
            DibHeader::Info => 0,
            DibHeader::V4 => 3,
        }
    }

    /// Size in bytes of this header variant.
    pub fn size(&self) -> (n: u32)
        ensures
            n == self.spec_size(),
    {
        match self {
            DibHeader::Info => INFO_HEADER_SIZE,
            DibHeader::V4 => V4_HEADER_SIZE,
        }
    }

    /// Compression tag that this header variant announces.
    pub fn compression(&self) -> (tag: u32)
        ensures
            tag == self.spec_compression(),
    {
        match self {
            DibHeader::Info => COMPRESSION_NONE,
            DibHeader::V4 => COMPRESSION_BITFIELDS,
        }
    }
}

/// Number of zero bytes that follow the pixels of a row so that the row
/// takes a multiple of four bytes.
pub open spec fn row_pad(width: int) -> int {
    (4 - width % 4) % 4
}

/// Bytes that one row takes in the file, padding included.
pub open spec fn row_stride(width: int) -> int {
    width + row_pad(width)
}

/// Size in bytes of the pixel section.
pub open spec fn image_size(width: int, height: int) -> int {
    width * height + height * row_pad(width)
}

/// Offset of the pixel section from the start of the file.
pub open spec fn data_offset(header: DibHeader) -> int {
    14 + header.spec_size() + 1024
}

/// Size in bytes of the whole file.
pub open spec fn file_size(header: DibHeader, width: int, height: int) -> int {
    data_offset(header) + image_size(width, height)
}

/// Whether the file for these dimensions can be described by the 32-bit
/// size fields of its headers.
pub open spec fn fits(header: DibHeader, width: int, height: int) -> bool {
    file_size(header, width, height) <= u32::MAX
}

/// The derived quantities of one file, computed before anything is written.
#[derive(Clone, Copy, Debug, PartialEq, Eq, Structural)]
pub struct Layout {
    /// Zero bytes after each row.
    pub row_pad: u32,
    /// Size of the pixel section.
    pub image_size: u32,
    /// Offset of the pixel section.
    pub data_offset: u32,
    /// Size of the whole file.
    pub file_size: u32,
}

impl Layout {
    /// The layout describes the file of the given header variant and
    /// dimensions.
    pub open spec fn describes(self, header: DibHeader, width: int, height: int) -> bool {
        &&& self.row_pad == row_pad(width)
        &&& self.image_size == image_size(width, height)
        &&& self.data_offset == data_offset(header)
        &&& self.file_size == file_size(header, width, height)
    }
}

/// Number of zero bytes appended to a row of `width` pixels.
pub fn row_pad_size(width: u32) -> (pad: u32)
    ensures
        pad == row_pad(width as int),
        pad < 4,
        (width + pad) % 4 == 0,
{
    (4 - (width * PIXEL_SIZE) % 4) % 4
}

/// Computes the sizes of the file, checking every step for overflow.
///
/// Returns `None` exactly when the file size does not fit in 32 bits, which
/// is also exactly when one of the intermediate products or sums does not.
pub fn compute_layout(header: DibHeader, width: u32, height: u32) -> (layout: Option<Layout>)
    ensures
        layout is Some <==> fits(header, width as int, height as int),
        layout matches Some(l) ==> l.describes(header, width as int, height as int),
{
    let row_pad = row_pad_size(width);
    let offset = FILE_HEADER_SIZE + header.size() + PALETTE_SIZE;
    proof {
        lemma_image_size_bounds(width as int, height as int);
    }
    let pixels = width.checked_mul(height)?;
    let pixel_bytes = pixels.checked_mul(PIXEL_SIZE)?;
    let padding = height.checked_mul(row_pad)?;
    let image_size = pixel_bytes.checked_add(padding)?;
    let file_size = offset.checked_add(image_size)?;
    Some(Layout { row_pad, image_size, data_offset: offset, file_size })
}

/// Both terms of the image size are non-negative, so neither exceeds it.
pub proof fn lemma_image_size_bounds(width: int, height: int)
    requires
        0 <= width,
        0 <= height,
    ensures
        0 <= width * height <= image_size(width, height),
        0 <= height * row_pad(width) <= image_size(width, height),
        image_size(width, height) == height * row_stride(width),
{
    assert(0 <= width * height) by (nonlinear_arith)
        requires
            0 <= width,
            0 <= height,
    ;
    assert(0 <= height * row_pad(width)) by (nonlinear_arith)
        requires
            0 <= height,
            0 <= row_pad(width),
    ;
    assert(height * (width + row_pad(width)) == width * height + height * row_pad(width))
        by (nonlinear_arith);
}

} // verus!
