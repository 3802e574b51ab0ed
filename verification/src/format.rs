//! The bytes of a grayscale BMP file, as a mathematical sequence.
//!
//! A file is four sections one after another: the file header, the DIB
//! header, the palette and the pixel rows. Each section is described here
//! by a specification function; [`bmp_bytes`] joins them.

use crate::endian::{i32_le, u16_le, u32_le};
use crate::layout::{data_offset, file_size, image_size, row_pad, row_stride, DibHeader};
use vstd::prelude::*;

verus! {

/// Mask of the red channel in the extended header.
pub const RED_MASK: u32 = 0x00FF_0000;

/// Mask of the green channel in the extended header.
pub const GREEN_MASK: u32 = 0x0000_FF00;

/// Mask of the blue channel in the extended header.
pub const BLUE_MASK: u32 = 0x0000_00FF;

/// Mask of the alpha channel in the extended header.
pub const ALPHA_MASK: u32 = 0xFF00_0000;

/// Tag of the sRGB colour space in the extended header.
pub const COLOR_SPACE_SRGB: u32 = 0x7352_4742;

/// `count` zero bytes.
pub open spec fn zeros(count: int) -> Seq<u8> {
    Seq::new(count as nat, |i: int| 0u8)
}

/// The file header for a file of `size` bytes whose pixel section starts
/// at `offset`: the magic `BM`, the size, two reserved zero words and the
/// offset.
pub open spec fn file_header_bytes(size: u32, offset: u32) -> Seq<u8> {
    seq![0x42u8, 0x4Du8] + u32_le(size) + u16_le(0) + u16_le(0) + u32_le(offset)
}

/// The forty bytes that both DIB header variants start with: header size,
/// width and height as signed words, one colour plane, eight bits per
/// pixel, the compression tag, the size of the pixel section, an
/// unspecified resolution, 256 palette colours, all of them important.
pub open spec fn dib_core_bytes(header: DibHeader, width: u32, height: u32, pixel_bytes: u32) -> Seq<
    u8,
> {
    u32_le(header.spec_size() as u32) + i32_le(width as i32) + i32_le(height as i32) + u16_le(1)
        + u16_le(8) + u32_le(header.spec_compression() as u32) + u32_le(pixel_bytes) + i32_le(0)
        + i32_le(0) + u32_le(256) + u32_le(0)
}

/// The channel masks of the extended header, red, green, blue and alpha,
/// followed by the tag of the sRGB colour space.
pub open spec fn v4_mask_bytes() -> Seq<u8> {
    u32_le(RED_MASK) + u32_le(GREEN_MASK) + u32_le(BLUE_MASK) + u32_le(ALPHA_MASK) + u32_le(
        COLOR_SPACE_SRGB,
    )
}

/// What the extended header adds to the common forty bytes: the masks,
/// the colour space tag and twelve reserved zero words.
pub open spec fn v4_extension_bytes() -> Seq<u8> {
    v4_mask_bytes() + zeros(48)
}

/// The DIB header of the given variant.
pub open spec fn dib_header_bytes(header: DibHeader, width: u32, height: u32, pixel_bytes: u32) -> Seq<
    u8,
> {
    match header {
        DibHeader::Info => dib_core_bytes(header, width, height, pixel_bytes),
        DibHeader::V4 => dib_core_bytes(header, width, height, pixel_bytes) + v4_extension_bytes(),
    }
}

/// The palette: entry `i` is blue, green and red all equal to `i`, and a
/// zero fourth byte.
pub open spec fn palette_bytes() -> Seq<u8> {
    Seq::new(1024, |k: int| if k % 4 == 3 { 0u8 } else { (k / 4) as u8 })
}

/// One row as it stands in the file: the `width` samples of image row
/// `row`, left to right, then the padding.
pub open spec fn file_row(pixels: Seq<u8>, width: int, row: int) -> Seq<u8> {
    pixels.subrange(row * width, row * width + width) + zeros(row_pad(width))
}

/// The first `count` rows of the pixel section. The file stores rows from
/// the bottom of the image up, so these are image rows `height - 1` down
/// to `height - count`.
pub open spec fn rows_bottom_up(pixels: Seq<u8>, width: int, height: int, count: nat) -> Seq<u8>
    decreases count,
{
    if count == 0 {
        Seq::empty()
    } else {
        rows_bottom_up(pixels, width, height, (count - 1) as nat) + file_row(
            pixels,
            width,
            height - count,
        )
    }
}

/// The pixel section: every row of the image, bottom row first.
pub open spec fn pixel_data(pixels: Seq<u8>, width: u32, height: u32) -> Seq<u8> {
    rows_bottom_up(pixels, width as int, height as int, height as nat)
}

/// The file header of the file for the given variant and dimensions.
pub open spec fn file_header(header: DibHeader, width: u32, height: u32) -> Seq<u8> {
    file_header_bytes(
        file_size(header, width as int, height as int) as u32,
        data_offset(header) as u32,
    )
}

/// The DIB header of the file for the given variant and dimensions.
pub open spec fn dib_header(header: DibHeader, width: u32, height: u32) -> Seq<u8> {
    dib_header_bytes(header, width, height, image_size(width as int, height as int) as u32)
}

/// The whole file for an image of `width` by `height` samples stored row
/// by row in `pixels`.
///
/// The description is meaningful where the file size fits in 32 bits and
/// `pixels` holds at least `width * height` samples; samples beyond that
/// are not part of the image.
///
/// The definition is revealed on demand, so that proofs which only pass a
/// file along do not unfold it.
#[verifier::opaque]
pub open spec fn bmp_bytes(header: DibHeader, pixels: Seq<u8>, width: u32, height: u32) -> Seq<u8> {
    file_header(header, width, height) + dib_header(header, width, height) + palette_bytes()
        + pixel_data(pixels, width, height)
}

/// The headers and the palette have the sizes that the layout gives them.
pub proof fn lemma_head_lengths(header: DibHeader, width: u32, height: u32)
    ensures
        file_header(header, width, height).len() == 14,
        dib_header(header, width, height).len() == header.spec_size(),
        palette_bytes().len() == 1024,
        (file_header(header, width, height) + dib_header(header, width, height)
            + palette_bytes()).len() == data_offset(header),
{
}

/// A file row is as long as the stride. It holds the samples of its image
/// row in order and zeros after them.
pub proof fn lemma_file_row(pixels: Seq<u8>, width: int, row: int)
    requires
        0 <= width,
        0 <= row,
        (row + 1) * width <= pixels.len(),
    ensures
        file_row(pixels, width, row).len() == row_stride(width),
        forall|col: int|
            0 <= col < width ==> #[trigger] file_row(pixels, width, row)[col] == pixels[row * width
                + col],
        forall|col: int|
            width <= col < row_stride(width) ==> #[trigger] file_row(pixels, width, row)[col] == 0,
{
    assert(row * width + width == (row + 1) * width) by (nonlinear_arith);
    assert(0 <= row * width) by (nonlinear_arith)
        requires
            0 <= width,
            0 <= row,
    ;
}

/// The first `count` rows of the pixel section take `count` strides.
pub proof fn lemma_rows_len(pixels: Seq<u8>, width: int, height: int, count: nat)
    requires
        0 <= width,
        count <= height,
        width * height <= pixels.len(),
    ensures
        rows_bottom_up(pixels, width, height, count).len() == count * row_stride(width),
    decreases count,
{
    if count > 0 {
        lemma_rows_len(pixels, width, height, (count - 1) as nat);
        lemma_row_in_image(width, height, height - count);
        lemma_file_row(pixels, width, height - count);
        assert((count - 1) * row_stride(width) + row_stride(width) == count * row_stride(width))
            by (nonlinear_arith);
    } else {
        assert(0 * row_stride(width) == 0);
    }
}

/// An image row lies within the first `width * height` samples.
pub proof fn lemma_row_in_image(width: int, height: int, row: int)
    requires
        0 <= width,
        0 <= row < height,
    ensures
        0 <= row * width,
        (row + 1) * width <= width * height,
{
    assert(0 <= row * width) by (nonlinear_arith)
        requires
            0 <= width,
            0 <= row,
    ;
    assert((row + 1) * width <= width * height) by (nonlinear_arith)
        requires
            0 <= width,
            row + 1 <= height,
    ;
}

/// The pixel section and the whole file are as long as the layout says.
pub proof fn lemma_file_len(header: DibHeader, pixels: Seq<u8>, width: u32, height: u32)
    requires
        width * height <= pixels.len(),
    ensures
        pixel_data(pixels, width, height).len() == image_size(width as int, height as int),
        bmp_bytes(header, pixels, width, height).len() == file_size(
            header,
            width as int,
            height as int,
        ),
{
    reveal(bmp_bytes);
    lemma_head_lengths(header, width, height);
    lemma_rows_len(pixels, width as int, height as int, height as nat);
    assert(height * (width + row_pad(width as int)) == width * height + height * row_pad(
        width as int,
    )) by (nonlinear_arith);
}

} // verus!
