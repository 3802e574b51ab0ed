//! What a reader finds in an encoded file.
//!
//! The functions here look at nothing but the bytes of a file, the way a
//! BMP reader does: they take the offsets and dimensions from the header
//! fields and follow them. The theorems state what they find in a file that
//! [`bmp_bytes`] describes.

use crate::endian::{lemma_signed_field, lemma_u32_le_reads_back, u32_from_le, u32_le};
use crate::format::{
    bmp_bytes, file_row, lemma_file_len, lemma_file_row, lemma_head_lengths, lemma_row_in_image,
    lemma_rows_len, palette_bytes, pixel_data, rows_bottom_up,
};
use crate::layout::{data_offset, file_size, fits, row_pad, row_stride, DibHeader};
use vstd::prelude::*;

verus! {

/// The unsigned 32-bit field that starts at byte `at` of the file.
pub open spec fn field_u32(file: Seq<u8>, at: int) -> int {
    u32_from_le(file.subrange(at, at + 4))
}

/// The size of the file as its header gives it.
pub open spec fn read_file_size(file: Seq<u8>) -> int {
    field_u32(file, 2)
}

/// The offset of the pixel section as the file header gives it.
pub open spec fn read_data_offset(file: Seq<u8>) -> int {
    field_u32(file, 10)
}

/// The size of the DIB header as its first field gives it.
pub open spec fn read_dib_size(file: Seq<u8>) -> int {
    field_u32(file, 14)
}

/// The width of the image as the DIB header gives it.
pub open spec fn read_width(file: Seq<u8>) -> int {
    field_u32(file, 18)
}

/// The height of the image as the DIB header gives it.
pub open spec fn read_height(file: Seq<u8>) -> int {
    field_u32(file, 22)
}

/// The four bytes of palette entry `index`: blue, green, red and the
/// reserved byte. The palette follows the DIB header.
pub open spec fn read_palette_entry(file: Seq<u8>, index: int) -> Seq<u8> {
    let table = 14 + read_dib_size(file);
    file.subrange(table + 4 * index, table + 4 * index + 4)
}

/// The row of the file that holds image row `row`, padding included. The
/// file keeps the bottom row of the image first.
pub open spec fn read_row(file: Seq<u8>, row: int) -> Seq<u8> {
    let stride = row_stride(read_width(file));
    let start = read_data_offset(file) + (read_height(file) - 1 - row) * stride;
    file.subrange(start, start + stride)
}

/// The palette index stored for the sample in column `col` of image row
/// `row`.
pub open spec fn read_index(file: Seq<u8>, col: int, row: int) -> u8 {
    read_row(file, row)[col]
}

/// The colour of the sample in column `col` of image row `row`: its
/// palette entry.
pub open spec fn read_color(file: Seq<u8>, col: int, row: int) -> Seq<u8> {
    read_palette_entry(file, read_index(file, col, row) as int)
}

/// A file starts with the magic `BM`, and the size field that follows is
/// the length of the file.
pub proof fn theorem_magic_and_size(header: DibHeader, pixels: Seq<u8>, width: u32, height: u32)
    requires
        fits(header, width as int, height as int),
        width * height <= pixels.len(),
    ensures
        bmp_bytes(header, pixels, width, height)[0] == 0x42,
        bmp_bytes(header, pixels, width, height)[1] == 0x4D,
        read_file_size(bmp_bytes(header, pixels, width, height)) == bmp_bytes(
            header,
            pixels,
            width,
            height,
        ).len(),
        bmp_bytes(header, pixels, width, height).len() == file_size(
            header,
            width as int,
            height as int,
        ),
{
    reveal(bmp_bytes);
    lemma_file_len(header, pixels, width, height);
    lemma_head_lengths(header, width, height);
    lemma_u32_le_reads_back(file_size(header, width as int, height as int) as u32);
}

/// The offset field of the file header is the size of the two headers and
/// the palette together, whichever DIB header the file carries.
pub proof fn theorem_data_offset(header: DibHeader, pixels: Seq<u8>, width: u32, height: u32)
    ensures
        read_data_offset(bmp_bytes(header, pixels, width, height)) == 14 + header.spec_size()
            + 1024,
        read_dib_size(bmp_bytes(header, pixels, width, height)) == header.spec_size(),
{
    reveal(bmp_bytes);
    lemma_head_lengths(header, width, height);
    lemma_u32_le_reads_back(data_offset(header) as u32);
    lemma_u32_le_reads_back(header.spec_size() as u32);
}

/// Palette entry `index` is `index` three times and a zero, for every
/// index from 0 to 255, in this order.
pub proof fn theorem_palette_is_gray_ramp(
    header: DibHeader,
    pixels: Seq<u8>,
    width: u32,
    height: u32,
    index: int,
)
    requires
        0 <= index < 256,
    ensures
        read_palette_entry(bmp_bytes(header, pixels, width, height), index) == seq![
            index as u8,
            index as u8,
            index as u8,
            0u8,
        ],
{
    reveal(bmp_bytes);
    theorem_data_offset(header, pixels, width, height);
    lemma_head_lengths(header, width, height);
    assert(palette_bytes().subrange(4 * index, 4 * index + 4) =~= seq![
        index as u8,
        index as u8,
        index as u8,
        0u8,
    ]);
}

/// Every row takes a multiple of four bytes in the file: the padding is
/// what the width lacks to the next multiple of four.
pub proof fn theorem_rows_aligned(width: int)
    requires
        0 <= width,
    ensures
        0 <= row_pad(width) < 4,
        row_stride(width) % 4 == 0,
        width % 4 == 0 ==> row_pad(width) == 0,
{
}

/// The width and height fields of the DIB header hold the dimensions.
pub proof fn theorem_dimensions(header: DibHeader, pixels: Seq<u8>, width: u32, height: u32)
    ensures
        read_width(bmp_bytes(header, pixels, width, height)) == width,
        read_height(bmp_bytes(header, pixels, width, height)) == height,
{
    reveal(bmp_bytes);
    let file = bmp_bytes(header, pixels, width, height);
    lemma_head_lengths(header, width, height);
    lemma_signed_field(width);
    lemma_signed_field(height);
    lemma_u32_le_reads_back(width);
    lemma_u32_le_reads_back(height);
    assert(file.subrange(18, 22) =~= u32_le(width));
    assert(file.subrange(22, 26) =~= u32_le(height));
}

/// Among the first `count` rows of the pixel section, the one at position
/// `position` is image row `height - 1 - position`.
proof fn lemma_rows_position(
    pixels: Seq<u8>,
    width: int,
    height: int,
    count: nat,
    position: int,
)
    requires
        0 <= width,
        count <= height,
        width * height <= pixels.len(),
        0 <= position < count,
    ensures
        position * row_stride(width) + row_stride(width) <= rows_bottom_up(
            pixels,
            width,
            height,
            count,
        ).len(),
        rows_bottom_up(pixels, width, height, count).subrange(
            position * row_stride(width),
            position * row_stride(width) + row_stride(width),
        ) == file_row(pixels, width, height - 1 - position),
    decreases count,
{
    let stride = row_stride(width);
    let rows = rows_bottom_up(pixels, width, height, count);
    let before = rows_bottom_up(pixels, width, height, (count - 1) as nat);
    lemma_rows_len(pixels, width, height, count);
    lemma_rows_len(pixels, width, height, (count - 1) as nat);
    lemma_row_in_image(width, height, height - count);
    lemma_file_row(pixels, width, height - count);
    assert(0 <= position * stride) by (nonlinear_arith)
        requires
            0 <= position,
            0 <= stride,
    ;
    assert(position * stride + stride <= count * stride) by (nonlinear_arith)
        requires
            position + 1 <= count,
            0 <= stride,
    ;
    if position < count - 1 {
        lemma_rows_position(pixels, width, height, (count - 1) as nat, position);
        assert(position * stride + stride <= (count - 1) * stride) by (nonlinear_arith)
            requires
                position + 1 <= count - 1,
                0 <= stride,
        ;
        assert(rows.subrange(position * stride, position * stride + stride) =~= before.subrange(
            position * stride,
            position * stride + stride,
        ));
    }
}

/// The rows stand in the file in reverse vertical order: what a reader
/// finds for image row `row` is that row, padded, and it finds row 0 at
/// the very end of the file.
pub proof fn theorem_rows_bottom_up(
    header: DibHeader,
    pixels: Seq<u8>,
    width: u32,
    height: u32,
    row: int,
)
    requires
        fits(header, width as int, height as int),
        width * height <= pixels.len(),
        0 <= row < height,
    ensures
        read_row(bmp_bytes(header, pixels, width, height), row) == file_row(
            pixels,
            width as int,
            row,
        ),
        row == 0 ==> read_row(bmp_bytes(header, pixels, width, height), row) == bmp_bytes(
            header,
            pixels,
            width,
            height,
        ).skip(file_size(header, width as int, height as int) - row_stride(width as int)),
{
    reveal(bmp_bytes);
    let file = bmp_bytes(header, pixels, width, height);
    let stride = row_stride(width as int);
    let position = height - 1 - row;
    let data = pixel_data(pixels, width, height);
    theorem_data_offset(header, pixels, width, height);
    theorem_dimensions(header, pixels, width, height);
    lemma_head_lengths(header, width, height);
    lemma_file_len(header, pixels, width, height);
    lemma_rows_position(pixels, width as int, height as int, height as nat, position);
    let start = data_offset(header) + position * stride;
    assert(file.subrange(start, start + stride) =~= data.subrange(
        position * stride,
        position * stride + stride,
    ));
    if row == 0 {
        assert(height * (width + row_pad(width as int)) == width * height + height * row_pad(
            width as int,
        )) by (nonlinear_arith);
        assert(file.subrange(start, start + stride) =~= file.skip(
            file_size(header, width as int, height as int) - stride,
        ));
    }
}

/// The index that a file stores for a sample is the sample.
pub proof fn theorem_index_is_sample(
    header: DibHeader,
    pixels: Seq<u8>,
    width: u32,
    height: u32,
    col: int,
    row: int,
)
    requires
        fits(header, width as int, height as int),
        width * height <= pixels.len(),
        0 <= col < width,
        0 <= row < height,
    ensures
        read_index(bmp_bytes(header, pixels, width, height), col, row) == pixels[row * width
            + col],
{
    theorem_rows_bottom_up(header, pixels, width, height, row);
    lemma_row_in_image(width as int, height as int, row);
    lemma_file_row(pixels, width as int, row);
}

/// Reading a file back gives the image: the colour that a reader finds for
/// a sample, through the index stored for it and the palette, is the gray
/// of the sample's value.
pub proof fn theorem_read_back(
    header: DibHeader,
    pixels: Seq<u8>,
    width: u32,
    height: u32,
    col: int,
    row: int,
)
    requires
        fits(header, width as int, height as int),
        width * height <= pixels.len(),
        0 <= col < width,
        0 <= row < height,
    ensures
        read_color(bmp_bytes(header, pixels, width, height), col, row) == seq![
            pixels[row * width + col],
            pixels[row * width + col],
            pixels[row * width + col],
            0u8,
        ],
{
    let file = bmp_bytes(header, pixels, width, height);
    let sample = pixels[row * width + col];
    assert(read_index(file, col, row) == sample) by {
        theorem_index_is_sample(header, pixels, width, height, col, row);
    }
    assert(read_palette_entry(file, sample as int) == seq![sample, sample, sample, 0u8]) by {
        theorem_palette_is_gray_ramp(header, pixels, width, height, sample as int);
    }
}

} // verus!
