//! The encoder: header, palette and pixel rows, streamed to a sink.

use crate::endian::{i32_to_le, u16_to_le, u32_to_le};
use crate::format::{
    bmp_bytes, dib_core_bytes, dib_header, dib_header_bytes, file_header, file_header_bytes,
    file_row, palette_bytes, pixel_data, rows_bottom_up, v4_extension_bytes, ALPHA_MASK,
    BLUE_MASK, COLOR_SPACE_SRGB, GREEN_MASK, RED_MASK,
};
use crate::layout::{
    compute_layout, fits, lemma_image_size_bounds, row_pad, DibHeader, PALETTE_COLORS,
};
use crate::sink::{took_part_of, ByteSink, MemorySink, NeverRefused};
use vstd::prelude::*;

verus! {

/// Why an image could not be encoded.
#[derive(Debug, PartialEq, Eq)]
pub enum EncodeError<E> {
    /// The size of the file does not fit in the 32-bit fields of its
    /// headers.
    SizeOverflow,
    /// The pixel buffer holds fewer samples than the dimensions call for.
    BufferTooSmall,
    /// The sink refused a write; the error is the one it reported.
    Io(E),
}

/// How a run of writes that was meant to deliver `data` ended.
///
/// On success the sink has accepted all of `data` after what it held and
/// has refused nothing. Otherwise the sink has refused one write, the
/// outcome carries the error of that write, no write followed it, and the
/// sink has accepted a leading part of `data`.
pub open spec fn delivered<S: ByteSink>(
    before: S,
    after: S,
    data: Seq<u8>,
    outcome: Result<(), EncodeError<S::Error>>,
) -> bool {
    match outcome {
        Ok(()) => {
            &&& after.accepted() == before.accepted() + data
            &&& after.refusals() == before.refusals()
        },
        Err(EncodeError::Io(e)) => {
            &&& took_part_of(before.accepted(), after.accepted(), data)
            &&& after.refusals() == before.refusals().push(e)
            &&& after.refused_last()
        },
        Err(_) => false,
    }
}

/// A delivery to a [`MemorySink`] succeeds: the sink refuses nothing, so it
/// ends up holding all of `data` after what it held.
pub proof fn theorem_memory_sink_takes_all(
    before: MemorySink,
    after: MemorySink,
    data: Seq<u8>,
    outcome: Result<(), EncodeError<NeverRefused>>,
)
    requires
        delivered(before, after, data, outcome),
    ensures
        outcome is Ok,
        after@ == before@ + data,
{
}

/// A sink that has accepted `sent` and then goes through the delivery of
/// `part` has, where `sent + part` opens `whole`, either accepted
/// `sent + part` or failed in the delivery of `whole`.
proof fn lemma_part_of_whole<S: ByteSink>(
    start: S,
    mid: S,
    end: S,
    sent: Seq<u8>,
    part: Seq<u8>,
    whole: Seq<u8>,
    outcome: Result<(), EncodeError<S::Error>>,
)
    requires
        mid.accepted() == start.accepted() + sent,
        mid.refusals() == start.refusals(),
        delivered(mid, end, part, outcome),
        (sent + part).is_prefix_of(whole),
    ensures
        outcome is Ok ==> end.accepted() == start.accepted() + (sent + part) && end.refusals()
            == start.refusals(),
        outcome is Ok && sent + part == whole ==> delivered(start, end, whole, outcome),
        outcome is Err ==> delivered(start, end, whole, outcome),
{
    if outcome is Ok {
        assert(end.accepted() =~= start.accepted() + (sent + part));
    } else {
        // what the sink took of `part` lies as deep in `whole` as `sent` is long
        let k = end.accepted().len() - mid.accepted().len();
        assert(whole.take(sent.len() + k) =~= sent + part.take(k)) by {
            assert forall|i: int| 0 <= i < sent.len() + k implies whole[i] == (sent + part)[i] by {
                assert(whole.subrange(0, (sent + part).len() as int)[i] == whole[i]);
            }
        }
        assert(end.accepted() =~= start.accepted() + whole.take(sent.len() + k));
    }
}

/// The widest piece that the encoder hands to a sink in one write: a
/// 32-bit field or a palette entry.
pub const WIDEST_WRITE: usize = 4;

/// Hands one chunk of `whole`, the one at position `at`, to the sink. Every
/// write of the encoder goes through here, so none is wider than
/// [`WIDEST_WRITE`].
fn emit<S: ByteSink>(
    sink: &mut S,
    chunk: &[u8],
    Ghost(start): Ghost<S>,
    Ghost(whole): Ghost<Seq<u8>>,
    Ghost(at): Ghost<int>,
) -> (outcome: Result<(), EncodeError<S::Error>>)
    requires
        chunk@.len() <= WIDEST_WRITE,
        0 <= at,
        at + chunk@.len() <= whole.len(),
        whole.subrange(at, at + chunk@.len()) =~= chunk@,
        old(sink).accepted() == start.accepted() + whole.take(at),
        old(sink).refusals() == start.refusals(),
    ensures
        outcome is Ok ==> final(sink).accepted() == start.accepted() + whole.take(
            at + chunk@.len(),
        ),
        outcome is Ok ==> final(sink).refusals() == start.refusals(),
        outcome is Err ==> delivered(start, *final(sink), whole, outcome),
{
    let ghost mid = *sink;
    let written = sink.write_bytes(chunk);
    let outcome = match written {
        Ok(()) => Ok(()),
        Err(e) => Err(EncodeError::Io(e)),
    };
    proof {
        lemma_part_of_whole(start, mid, *sink, whole.take(at), chunk@, whole, outcome);
    }
    outcome
}

/// Writes the file header.
fn write_file_header<S: ByteSink>(
    sink: &mut S,
    size: u32,
    offset: u32,
) -> (outcome: Result<(), EncodeError<S::Error>>)
    ensures
        delivered(*old(sink), *final(sink), file_header_bytes(size, offset), outcome),
{
    let ghost start = *sink;
    let ghost whole = file_header_bytes(size, offset);
    emit(sink, &[0x42u8], Ghost(start), Ghost(whole), Ghost(0))?;
    emit(sink, &[0x4Du8], Ghost(start), Ghost(whole), Ghost(1))?;
    emit(sink, &u32_to_le(size), Ghost(start), Ghost(whole), Ghost(2))?;
    emit(sink, &u16_to_le(0), Ghost(start), Ghost(whole), Ghost(6))?;
    emit(sink, &u16_to_le(0), Ghost(start), Ghost(whole), Ghost(8))?;
    emit(sink, &u32_to_le(offset), Ghost(start), Ghost(whole), Ghost(10))?;
    assert(whole.take(14) =~= whole);
    Ok(())
}

/// Writes the forty bytes that both DIB header variants start with.
fn write_dib_core<S: ByteSink>(
    sink: &mut S,
    header: DibHeader,
    width: u32,
    height: u32,
    pixel_bytes: u32,
) -> (outcome: Result<(), EncodeError<S::Error>>)
    ensures
        delivered(
            *old(sink),
            *final(sink),
            dib_core_bytes(header, width, height, pixel_bytes),
            outcome,
        ),
{
    let ghost start = *sink;
    let ghost whole = dib_core_bytes(header, width, height, pixel_bytes);
    emit(sink, &u32_to_le(header.size()), Ghost(start), Ghost(whole), Ghost(0))?;
    emit(sink, &i32_to_le(width as i32), Ghost(start), Ghost(whole), Ghost(4))?;
    emit(sink, &i32_to_le(height as i32), Ghost(start), Ghost(whole), Ghost(8))?;
    emit(sink, &u16_to_le(1), Ghost(start), Ghost(whole), Ghost(12))?;
    emit(sink, &u16_to_le(8), Ghost(start), Ghost(whole), Ghost(14))?;
    emit(sink, &u32_to_le(header.compression()), Ghost(start), Ghost(whole), Ghost(16))?;
    emit(sink, &u32_to_le(pixel_bytes), Ghost(start), Ghost(whole), Ghost(20))?;
    emit(sink, &i32_to_le(0), Ghost(start), Ghost(whole), Ghost(24))?;
    emit(sink, &i32_to_le(0), Ghost(start), Ghost(whole), Ghost(28))?;
    emit(sink, &u32_to_le(PALETTE_COLORS), Ghost(start), Ghost(whole), Ghost(32))?;
    emit(sink, &u32_to_le(0), Ghost(start), Ghost(whole), Ghost(36))?;
    assert(whole.take(40) =~= whole);
    Ok(())
}

/// Writes what the extended header adds: the channel masks, the colour
/// space tag and twelve reserved zero words.
fn write_v4_extension<S: ByteSink>(sink: &mut S) -> (outcome: Result<(), EncodeError<S::Error>>)
    ensures
        delivered(*old(sink), *final(sink), v4_extension_bytes(), outcome),
{
    let ghost start = *sink;
    let ghost whole = v4_extension_bytes();
    emit(sink, &u32_to_le(RED_MASK), Ghost(start), Ghost(whole), Ghost(0))?;
    emit(sink, &u32_to_le(GREEN_MASK), Ghost(start), Ghost(whole), Ghost(4))?;
    emit(sink, &u32_to_le(BLUE_MASK), Ghost(start), Ghost(whole), Ghost(8))?;
    emit(sink, &u32_to_le(ALPHA_MASK), Ghost(start), Ghost(whole), Ghost(12))?;
    emit(sink, &u32_to_le(COLOR_SPACE_SRGB), Ghost(start), Ghost(whole), Ghost(16))?;
    let mut word: u32 = 0;
    while word < 12
        invariant
            word <= 12,
            start == *old(sink),
            whole == v4_extension_bytes(),
            sink.accepted() == start.accepted() + whole.take(20 + 4 * word),
            sink.refusals() == start.refusals(),
        decreases 12 - word,
    {
        emit(sink, &u32_to_le(0), Ghost(start), Ghost(whole), Ghost(20 + 4 * word))?;
        word = word + 1;
    }
    assert(whole.take(68) =~= whole);
    Ok(())
}

/// Writes the DIB header of the given variant.
fn write_dib_header<S: ByteSink>(
    sink: &mut S,
    header: DibHeader,
    width: u32,
    height: u32,
    pixel_bytes: u32,
) -> (outcome: Result<(), EncodeError<S::Error>>)
    ensures
        delivered(
            *old(sink),
            *final(sink),
            dib_header_bytes(header, width, height, pixel_bytes),
            outcome,
        ),
{
    let ghost start = *sink;
    let ghost core = dib_core_bytes(header, width, height, pixel_bytes);
    let core_written = write_dib_core(sink, header, width, height, pixel_bytes);
    match header {
        DibHeader::Info => core_written,
        DibHeader::V4 => {
            let ghost whole = core + v4_extension_bytes();
            let ghost mid = *sink;
            proof {
                lemma_part_of_whole(
                    start,
                    start,
                    mid,
                    Seq::<u8>::empty(),
                    core,
                    whole,
                    core_written,
                );
            }
            core_written?;
            let extended = write_v4_extension(sink);
            proof {
                lemma_part_of_whole(
                    start,
                    mid,
                    *sink,
                    core,
                    v4_extension_bytes(),
                    whole,
                    extended,
                );
            }
            extended
        },
    }
}

/// Writes the palette, one entry of four bytes at a time.
fn write_palette<S: ByteSink>(sink: &mut S) -> (outcome: Result<(), EncodeError<S::Error>>)
    ensures
        delivered(*old(sink), *final(sink), palette_bytes(), outcome),
{
    let ghost start = *sink;
    let ghost whole = palette_bytes();
    let mut index: u32 = 0;
    while index < PALETTE_COLORS
        invariant
            index <= 256,
            start == *old(sink),
            whole == palette_bytes(),
            sink.accepted() == start.accepted() + whole.take(4 * index),
            sink.refusals() == start.refusals(),
        decreases 256 - index,
    {
        let gray = index as u8;
        // blue, green and red are the index; the fourth byte stays zero
        emit(sink, &[gray, gray, gray, 0], Ghost(start), Ghost(whole), Ghost(4 * index))?;
        index = index + 1;
    }
    assert(whole.take(1024) =~= whole);
    Ok(())
}

/// Writes one row of the image, sample by sample, and its padding.
fn write_row<S: ByteSink>(
    sink: &mut S,
    image: &[u8],
    width: u32,
    row: u32,
    pad: u32,
) -> (outcome: Result<(), EncodeError<S::Error>>)
    requires
        (row + 1) * width <= image@.len(),
        (row + 1) * width <= u32::MAX,
        pad == row_pad(width as int),
    ensures
        delivered(*old(sink), *final(sink), file_row(image@, width as int, row as int), outcome),
{
    let ghost start = *sink;
    let ghost whole = file_row(image@, width as int, row as int);
    assert(row * width + width == (row + 1) * width) by (nonlinear_arith);
    let row_start = row * width;
    let mut col: u32 = 0;
    while col < width
        invariant
            col <= width,
            row_start == row * width,
            row_start + width <= image@.len(),
            row_start + width <= u32::MAX,
            0 <= pad < 4,
            start == *old(sink),
            whole == file_row(image@, width as int, row as int),
            whole.len() == width + pad,
            sink.accepted() == start.accepted() + whole.take(col as int),
            sink.refusals() == start.refusals(),
        decreases width - col,
    {
        let pixel_start = (row_start + col) as usize;
        // the sample is its own palette index
        emit(sink, &[image[pixel_start]], Ghost(start), Ghost(whole), Ghost(col as int))?;
        col = col + 1;
    }
    let mut filler: u32 = 0;
    while filler < pad
        invariant
            filler <= pad < 4,
            start == *old(sink),
            whole == file_row(image@, width as int, row as int),
            whole.len() == width + pad,
            row * width + width <= image@.len(),
            0 <= row * width,
            sink.accepted() == start.accepted() + whole.take(width + filler),
            sink.refusals() == start.refusals(),
        decreases pad - filler,
    {
        emit(sink, &[0u8], Ghost(start), Ghost(whole), Ghost(width + filler))?;
        filler = filler + 1;
    }
    assert(whole.take(width + pad) =~= whole);
    Ok(())
}

/// The rows written first open the rows written in all.
proof fn lemma_rows_prefix(pixels: Seq<u8>, width: int, height: int, count: nat, total: nat)
    requires
        count <= total,
    ensures
        rows_bottom_up(pixels, width, height, count).is_prefix_of(
            rows_bottom_up(pixels, width, height, total),
        ),
    decreases total,
{
    let shorter = rows_bottom_up(pixels, width, height, count);
    if count < total {
        let before = rows_bottom_up(pixels, width, height, (total - 1) as nat);
        lemma_rows_prefix(pixels, width, height, count, (total - 1) as nat);
        assert(shorter.is_prefix_of(before + file_row(pixels, width, height - total))) by {
            assert(shorter =~= (before + file_row(pixels, width, height - total)).subrange(
                0,
                shorter.len() as int,
            ));
        }
    }
}

/// Writes the pixel section: the rows of the image from the last to the
/// first, each padded.
fn write_pixel_data<S: ByteSink>(
    sink: &mut S,
    image: &[u8],
    width: u32,
    height: u32,
    pad: u32,
) -> (outcome: Result<(), EncodeError<S::Error>>)
    requires
        width * height <= image@.len(),
        width * height <= u32::MAX,
        pad == row_pad(width as int),
    ensures
        delivered(*old(sink), *final(sink), pixel_data(image@, width, height), outcome),
{
    let ghost start = *sink;
    let ghost whole = pixel_data(image@, width, height);
    let mut done: u32 = 0;
    while done < height
        invariant
            done <= height,
            width * height <= image@.len(),
            width * height <= u32::MAX,
            pad == row_pad(width as int),
            start == *old(sink),
            whole == pixel_data(image@, width, height),
            sink.accepted() == start.accepted() + rows_bottom_up(
                image@,
                width as int,
                height as int,
                done as nat,
            ),
            sink.refusals() == start.refusals(),
        decreases height - done,
    {
        // from the bottom up
        let row = height - 1 - done;
        let ghost mid = *sink;
        let ghost sent = rows_bottom_up(image@, width as int, height as int, done as nat);
        assert((row + 1) * width <= width * height) by (nonlinear_arith)
            requires
                row + 1 <= height,
                0 <= width,
        ;
        let row_written = write_row(sink, image, width, row, pad);
        proof {
            assert(sent + file_row(image@, width as int, row as int) == rows_bottom_up(
                image@,
                width as int,
                height as int,
                (done + 1) as nat,
            ));
            lemma_rows_prefix(
                image@,
                width as int,
                height as int,
                (done + 1) as nat,
                height as nat,
            );
            lemma_part_of_whole(
                start,
                mid,
                *sink,
                sent,
                file_row(image@, width as int, row as int),
                whole,
                row_written,
            );
        }
        row_written?;
        done = done + 1;
    }
    Ok(())
}

/// Encodes a grayscale image as a BMP file with the given DIB header
/// variant and streams the file to `sink`.
///
/// `image` holds the samples row by row, the top row first, `width`
/// samples to a row. Samples beyond the first `width * height` are not
/// part of the image.
///
/// The sizes are computed, and the buffer measured, before anything is
/// written: where the file size overflows 32 bits the result is
/// `SizeOverflow`, where it fits but the buffer is short of
/// `width * height` samples the result is `BufferTooSmall`, and in both
/// cases the sink is left as it was. Otherwise the file is handed to the
/// sink in file order. The first write that the sink refuses ends the
/// encoding with the sink's error in `Io`; nothing is written after it.
pub fn encode_with_header<S: ByteSink>(
    sink: &mut S,
    image: &[u8],
    width: u32,
    height: u32,
    header: DibHeader,
) -> (outcome: Result<(), EncodeError<S::Error>>)
    ensures
        (outcome matches Err(EncodeError::SizeOverflow))
            <==> !fits(header, width as int, height as int),
        (outcome matches Err(EncodeError::BufferTooSmall))
            <==> fits(header, width as int, height as int) && image@.len() < width * height,
        !fits(header, width as int, height as int) || image@.len() < width * height
            ==> *final(sink) == *old(sink),
        fits(header, width as int, height as int) && image@.len() >= width * height
            ==> delivered(
                *old(sink),
                *final(sink),
                bmp_bytes(header, image@, width, height),
                outcome,
            ),
{
    let layout = match compute_layout(header, width, height) {
        Some(layout) => layout,
        None => {
            return Err(EncodeError::SizeOverflow);
        },
    };
    proof {
        lemma_image_size_bounds(width as int, height as int);
    }
    let samples = width * height;
    if image.len() < samples as usize {
        return Err(EncodeError::BufferTooSmall);
    }
    let ghost start = *sink;
    let ghost head = file_header(header, width, height);
    let ghost dib = dib_header(header, width, height);
    let ghost whole = bmp_bytes(header, image@, width, height);
    proof {
        reveal(bmp_bytes);
    }

    let head_written = write_file_header(sink, layout.file_size, layout.data_offset);
    proof {
        lemma_part_of_whole(start, start, *sink, Seq::<u8>::empty(), head, whole, head_written);
    }
    head_written?;

    let ghost after_head = *sink;
    let dib_written = write_dib_header(sink, header, width, height, layout.image_size);
    proof {
        lemma_part_of_whole(start, after_head, *sink, head, dib, whole, dib_written);
    }
    dib_written?;

    let ghost after_dib = *sink;
    let palette_written = write_palette(sink);
    proof {
        lemma_part_of_whole(
            start,
            after_dib,
            *sink,
            head + dib,
            palette_bytes(),
            whole,
            palette_written,
        );
    }
    palette_written?;

    let ghost after_palette = *sink;
    let pixels_written = write_pixel_data(sink, image, width, height, layout.row_pad);
    proof {
        lemma_part_of_whole(
            start,
            after_palette,
            *sink,
            head + dib + palette_bytes(),
            pixel_data(image@, width, height),
            whole,
            pixels_written,
        );
    }
    pixels_written
}

/// Encodes a grayscale image as a BMP file with the minimal 40-byte DIB
/// header and streams the file to `sink`.
///
/// This is [`encode_with_header`] with [`DibHeader::Info`].
pub fn encode_grayscale<S: ByteSink>(
    sink: &mut S,
    image: &[u8],
    width: u32,
    height: u32,
) -> (outcome: Result<(), EncodeError<S::Error>>)
    ensures
        (outcome matches Err(EncodeError::SizeOverflow))
            <==> !fits(DibHeader::Info, width as int, height as int),
        (outcome matches Err(EncodeError::BufferTooSmall))
            <==> fits(DibHeader::Info, width as int, height as int)
                && image@.len() < width * height,
        !fits(DibHeader::Info, width as int, height as int) || image@.len() < width * height
            ==> *final(sink) == *old(sink),
        fits(DibHeader::Info, width as int, height as int) && image@.len() >= width * height
            ==> delivered(
                *old(sink),
                *final(sink),
                bmp_bytes(DibHeader::Info, image@, width, height),
                outcome,
            ),
{
    encode_with_header(sink, image, width, height, DibHeader::Info)
}

} // verus!
