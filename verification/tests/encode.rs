use graybmp::encoder::WIDEST_WRITE;
use graybmp::{
    encode_grayscale, encode_with_header, BoundedSink, DibHeader, EncodeError, MemorySink,
    RawSink, Recorded, SinkFull,
};

fn palette() -> Vec<u8> {
    let mut bytes = Vec::new();
    for index in 0..=255u8 {
        bytes.push(index);
        bytes.push(index);
        bytes.push(index);
        bytes.push(0);
    }
    bytes
}

fn encode_to_vec(image: &[u8], width: u32, height: u32, header: DibHeader) -> Vec<u8> {
    let mut sink = MemorySink::new();
    let outcome = encode_with_header(&mut sink, image, width, height, header);
    assert_eq!(outcome, Ok(()));
    sink.into_bytes()
}

fn le32(bytes: &[u8], at: usize) -> u32 {
    u32::from_le_bytes([bytes[at], bytes[at + 1], bytes[at + 2], bytes[at + 3]])
}

#[test]
fn two_by_two_image_byte_for_byte() {
    let mut sink = MemorySink::new();
    assert_eq!(encode_grayscale(&mut sink, &[1, 2, 3, 4], 2, 2), Ok(()));

    let mut expected: Vec<u8> = vec![
        b'B', b'M', // magic
        0x3E, 0x04, 0x00, 0x00, // file size 1086
        0x00, 0x00, 0x00, 0x00, // reserved
        0x36, 0x04, 0x00, 0x00, // pixel data offset 1078
        0x28, 0x00, 0x00, 0x00, // header size 40
        0x02, 0x00, 0x00, 0x00, // width
        0x02, 0x00, 0x00, 0x00, // height
        0x01, 0x00, // planes
        0x08, 0x00, // bits per pixel
        0x00, 0x00, 0x00, 0x00, // no compression
        0x08, 0x00, 0x00, 0x00, // image size
        0x00, 0x00, 0x00, 0x00, // horizontal resolution
        0x00, 0x00, 0x00, 0x00, // vertical resolution
        0x00, 0x01, 0x00, 0x00, // 256 colours
        0x00, 0x00, 0x00, 0x00, // all of them important
    ];
    expected.extend_from_slice(&palette());
    expected.extend_from_slice(&[3, 4, 0, 0, 1, 2, 0, 0]);
    assert_eq!(sink.as_slice(), &expected[..]);
    assert_eq!(sink.len(), 1086);
}

#[test]
fn one_sample_with_extended_header_byte_for_byte() {
    let bytes = encode_to_vec(&[0xAB], 1, 1, DibHeader::V4);

    let mut expected: Vec<u8> = vec![
        b'B', b'M', // magic
        0x7E, 0x04, 0x00, 0x00, // file size 1150
        0x00, 0x00, 0x00, 0x00, // reserved
        0x7A, 0x04, 0x00, 0x00, // pixel data offset 1146
        0x6C, 0x00, 0x00, 0x00, // header size 108
        0x01, 0x00, 0x00, 0x00, // width
        0x01, 0x00, 0x00, 0x00, // height
        0x01, 0x00, // planes
        0x08, 0x00, // bits per pixel
        0x03, 0x00, 0x00, 0x00, // bitfields
        0x04, 0x00, 0x00, 0x00, // image size
        0x00, 0x00, 0x00, 0x00, // horizontal resolution
        0x00, 0x00, 0x00, 0x00, // vertical resolution
        0x00, 0x01, 0x00, 0x00, // 256 colours
        0x00, 0x00, 0x00, 0x00, // all of them important
        0x00, 0x00, 0xFF, 0x00, // red mask
        0x00, 0xFF, 0x00, 0x00, // green mask
        0xFF, 0x00, 0x00, 0x00, // blue mask
        0x00, 0x00, 0x00, 0xFF, // alpha mask
        0x42, 0x47, 0x52, 0x73, // sRGB
    ];
    expected.extend_from_slice(&[0u8; 48]);
    expected.extend_from_slice(&palette());
    expected.extend_from_slice(&[0xAB, 0, 0, 0]);
    assert_eq!(bytes, expected);
}

#[test]
fn encode_grayscale_uses_the_minimal_header() {
    let image = [9u8, 8, 7, 6, 5, 4];
    let mut sink = MemorySink::new();
    assert_eq!(encode_grayscale(&mut sink, &image, 3, 2), Ok(()));
    assert_eq!(sink.into_bytes(), encode_to_vec(&image, 3, 2, DibHeader::Info));
}

#[test]
fn magic_and_size_field_match_the_output() {
    for header in [DibHeader::Info, DibHeader::V4] {
        for (width, height) in [(1u32, 1u32), (3, 1), (4, 4), (257, 1), (5, 7), (64, 48)] {
            let image = vec![0x5Au8; (width * height) as usize];
            let bytes = encode_to_vec(&image, width, height, header);
            assert_eq!(bytes[0], b'B');
            assert_eq!(bytes[1], b'M');
            assert_eq!(le32(&bytes, 2) as usize, bytes.len());
        }
    }
}

#[test]
fn offset_field_for_both_headers() {
    let image = [0u8; 12];
    let info = encode_to_vec(&image, 4, 3, DibHeader::Info);
    assert_eq!(le32(&info, 10), 14 + 40 + 1024);
    assert_eq!(le32(&info, 14), 40);
    let v4 = encode_to_vec(&image, 4, 3, DibHeader::V4);
    assert_eq!(le32(&v4, 10), 14 + 108 + 1024);
    assert_eq!(le32(&v4, 14), 108);
}

#[test]
fn palette_is_the_full_gray_ramp() {
    for (header, start) in [(DibHeader::Info, 54usize), (DibHeader::V4, 122usize)] {
        let bytes = encode_to_vec(&[1, 2, 3], 3, 1, header);
        for index in 0..256usize {
            let entry = &bytes[start + 4 * index..start + 4 * index + 4];
            assert_eq!(entry, &[index as u8, index as u8, index as u8, 0]);
        }
        assert_eq!(&bytes[start..start + 1024], &palette()[..]);
    }
}

#[test]
fn rows_are_padded_to_four_bytes() {
    for width in 1u32..=9 {
        let height = 3u32;
        let image: Vec<u8> = (0..width * height).map(|i| (i + 1) as u8).collect();
        let bytes = encode_to_vec(&image, width, height, DibHeader::Info);
        let stride = ((width + 3) / 4 * 4) as usize;
        assert_eq!(bytes.len(), 1078 + stride * height as usize);
        assert_eq!(le32(&bytes, 34) as usize, stride * height as usize);
        for file_row in 0..height as usize {
            let row = &bytes[1078 + file_row * stride..1078 + (file_row + 1) * stride];
            assert!(row[width as usize..].iter().all(|&b| b == 0));
        }
    }
}

#[test]
fn rows_are_stored_bottom_up() {
    // three rows of two samples
    let image = [10u8, 11, 20, 21, 30, 31];
    let bytes = encode_to_vec(&image, 2, 3, DibHeader::Info);
    assert_eq!(&bytes[1078..], &[30, 31, 0, 0, 20, 21, 0, 0, 10, 11, 0, 0]);
    // row 0 of the image is the last row of the file
    assert_eq!(&bytes[bytes.len() - 4..], &[10, 11, 0, 0]);
}

#[test]
fn samples_beyond_the_image_are_ignored() {
    let long = [1u8, 2, 3, 4, 5, 6, 7];
    let exact = [1u8, 2, 3, 4];
    assert_eq!(
        encode_to_vec(&long, 2, 2, DibHeader::Info),
        encode_to_vec(&exact, 2, 2, DibHeader::Info)
    );
}

#[test]
fn empty_images_give_headers_and_palette_only() {
    for (width, height) in [(0u32, 0u32), (0, 5), (5, 0)] {
        let bytes = encode_to_vec(&[], width, height, DibHeader::Info);
        assert_eq!(bytes.len(), 1078);
        assert_eq!(le32(&bytes, 2), 1078);
        assert_eq!(le32(&bytes, 18), width);
        assert_eq!(le32(&bytes, 22), height);
        assert_eq!(le32(&bytes, 34), 0);
    }
}

#[test]
fn dimensions_above_the_signed_range_keep_their_bits() {
    // no rows, so nothing is read from the buffer
    let bytes = encode_to_vec(&[], 0x8000_0001, 0, DibHeader::Info);
    assert_eq!(&bytes[18..22], &[0x01, 0x00, 0x00, 0x80]);
    assert_eq!(&bytes[22..26], &[0x00, 0x00, 0x00, 0x00]);
    let bytes = encode_to_vec(&[], 0, 0xFFFF_FFFF, DibHeader::Info);
    assert_eq!(&bytes[18..22], &[0x00, 0x00, 0x00, 0x00]);
    assert_eq!(&bytes[22..26], &[0xFF, 0xFF, 0xFF, 0xFF]);
}

#[test]
fn header_fields_are_little_endian() {
    // 0x0102 samples in a row: the low byte of each field comes first
    let image = vec![0u8; 0x0102 * 0x0003];
    let bytes = encode_to_vec(&image, 0x0102, 0x0003, DibHeader::Info);
    // stride 0x0104, image size 0x030C, file size 0x0742
    assert_eq!(&bytes[2..6], &[0x42, 0x07, 0x00, 0x00]);
    assert_eq!(&bytes[18..22], &[0x02, 0x01, 0x00, 0x00]);
    assert_eq!(&bytes[22..26], &[0x03, 0x00, 0x00, 0x00]);
    assert_eq!(&bytes[26..28], &[0x01, 0x00]);
    assert_eq!(&bytes[28..30], &[0x08, 0x00]);
    assert_eq!(&bytes[34..38], &[0x0C, 0x03, 0x00, 0x00]);
    assert_eq!(&bytes[46..50], &[0x00, 0x01, 0x00, 0x00]);
}

#[test]
fn size_overflow_is_reported_before_any_write() {
    let mut sink = MemorySink::new();
    let outcome = encode_grayscale(&mut sink, &[], 0x1_0000, 0x1_0000);
    assert_eq!(outcome, Err(EncodeError::SizeOverflow));
    assert_eq!(sink.len(), 0);

    let mut sink = MemorySink::new();
    let outcome = encode_with_header(&mut sink, &[1, 2, 3], u32::MAX, u32::MAX, DibHeader::V4);
    assert_eq!(outcome, Err(EncodeError::SizeOverflow));
    assert_eq!(sink.len(), 0);
}

#[test]
fn size_overflow_comes_before_the_buffer_check() {
    // the buffer is far too short as well
    let mut sink = BoundedSink::with_capacity(0);
    let outcome = encode_grayscale(&mut sink, &[0u8; 4], 0xFFFF_FFFC, 1);
    assert_eq!(outcome, Err(EncodeError::SizeOverflow));
    assert!(sink.refused_writes().is_empty());
}

#[test]
fn square_of_side_ffff_fits_the_size_fields() {
    // the file would take 0xFFFF_0436 bytes, which a 32-bit field holds, so
    // the short buffer is what stops the encoding
    let mut sink = MemorySink::new();
    let outcome = encode_grayscale(&mut sink, &[0u8; 16], 0xFFFF, 0xFFFF);
    assert_eq!(outcome, Err(EncodeError::BufferTooSmall));
    assert_eq!(sink.len(), 0);
}

#[test]
fn short_buffer_is_refused_before_any_write() {
    for (width, height) in [(1u32, 1u32), (3, 1), (4, 4), (257, 1), (2, 5)] {
        let image = vec![7u8; (width * height - 1) as usize];
        for header in [DibHeader::Info, DibHeader::V4] {
            let mut sink = MemorySink::new();
            let outcome = encode_with_header(&mut sink, &image, width, height, header);
            assert_eq!(outcome, Err(EncodeError::BufferTooSmall));
            assert_eq!(sink.len(), 0);
        }
    }
}

#[test]
fn sink_failure_stops_the_encoding() {
    let image: Vec<u8> = (0..35u8).collect();
    let whole = encode_to_vec(&image, 5, 7, DibHeader::Info);
    assert_eq!(whole.len(), 1078 + 8 * 7);
    // in the magic, inside a field, between fields, in the palette, inside a
    // palette entry, in the samples, in the padding, one byte short
    for capacity in [0usize, 1, 4, 14, 54, 55, 600, 601, 1078, 1080, 1084, 1085, 1133] {
        let mut sink = BoundedSink::with_capacity(capacity);
        let outcome = encode_grayscale(&mut sink, &image, 5, 7);
        match outcome {
            Err(EncodeError::Io(SinkFull { left_over })) => assert!(left_over >= 1),
            other => panic!("capacity {}: {:?}", capacity, other),
        }
        // what the sink holds is the start of the file
        assert_eq!(sink.as_slice(), &whole[..capacity]);
        // and nothing was handed to it after the write it refused
        assert_eq!(sink.refused_writes().len(), 1);
        assert!(sink.last_write_refused());
    }
}

#[test]
fn sink_failure_carries_the_error_of_the_sink() {
    // the file size field is the four bytes after the magic; with room for
    // three bytes the sink keeps one byte of it and reports the other three
    let mut sink = BoundedSink::with_capacity(3);
    let outcome = encode_grayscale(&mut sink, &[1], 1, 1);
    assert_eq!(outcome, Err(EncodeError::Io(SinkFull { left_over: 3 })));
    assert_eq!(sink.refused_writes(), &[SinkFull { left_over: 3 }]);
    assert_eq!(sink.as_slice(), &[b'B', b'M', 0x3A]);
}

#[test]
fn sink_with_exact_room_takes_the_whole_file() {
    let image = [1u8, 2, 3, 4, 5, 6];
    let whole = encode_to_vec(&image, 3, 2, DibHeader::V4);
    let mut sink = BoundedSink::with_capacity(whole.len());
    assert_eq!(encode_with_header(&mut sink, &image, 3, 2, DibHeader::V4), Ok(()));
    assert_eq!(sink.as_slice(), &whole[..]);
    assert!(sink.refused_writes().is_empty());
    assert!(!sink.last_write_refused());
    assert_eq!(sink.len(), sink.capacity());
}

#[test]
fn encoding_appends_to_what_the_sink_holds() {
    let mut sink = MemorySink::new();
    assert_eq!(encode_grayscale(&mut sink, &[1], 1, 1), Ok(()));
    assert_eq!(encode_grayscale(&mut sink, &[2], 1, 1), Ok(()));
    let first = encode_to_vec(&[1], 1, 1, DibHeader::Info);
    let second = encode_to_vec(&[2], 1, 1, DibHeader::Info);
    assert_eq!(&sink.as_slice()[..first.len()], &first[..]);
    assert_eq!(&sink.as_slice()[first.len()..], &second[..]);
}

/// A destination that refuses one write, the one with the given number,
/// takes nothing of it, and accepts every other write.
struct Flaky {
    bytes: Vec<u8>,
    writes: usize,
    refuse_at: usize,
}

impl RawSink for Flaky {
    type Error = usize;

    fn write_raw(&mut self, bytes: &[u8]) -> Result<(), usize> {
        let number = self.writes;
        self.writes += 1;
        if number == self.refuse_at {
            Err(number)
        } else {
            self.bytes.extend_from_slice(bytes);
            Ok(())
        }
    }
}

#[test]
fn no_write_follows_the_refused_one() {
    let image: Vec<u8> = (1..=6u8).collect();
    let whole = encode_to_vec(&image, 3, 2, DibHeader::V4);

    let mut sink = Recorded::new(Flaky { bytes: Vec::new(), writes: 0, refuse_at: usize::MAX });
    assert_eq!(encode_with_header(&mut sink, &image, 3, 2, DibHeader::V4), Ok(()));
    let counted = sink.into_inner();
    assert_eq!(counted.bytes, whole);
    // 6 fields of the file header, 11 and 17 of the DIB header, 256 palette
    // entries, and 2 rows of 3 samples and 1 byte of padding
    assert_eq!(counted.writes, 6 + 11 + 17 + 256 + 2 * 4);

    for refuse_at in 0..counted.writes {
        let mut sink = Recorded::new(Flaky { bytes: Vec::new(), writes: 0, refuse_at });
        let outcome = encode_with_header(&mut sink, &image, 3, 2, DibHeader::V4);
        assert_eq!(outcome, Err(EncodeError::Io(refuse_at)));
        let seen = sink.into_inner();
        // the refused write was the last one
        assert_eq!(seen.writes, refuse_at + 1);
        assert_eq!(&seen.bytes[..], &whole[..seen.bytes.len()]);
    }
}

/// A destination that only measures the widest write it was handed.
struct Widest(usize);

impl RawSink for Widest {
    type Error = ();

    fn write_raw(&mut self, bytes: &[u8]) -> Result<(), ()> {
        self.0 = self.0.max(bytes.len());
        Ok(())
    }
}

#[test]
fn file_is_handed_over_in_small_pieces() {
    let image = vec![0u8; 640 * 48];
    let mut sink = Recorded::new(Widest(0));
    assert_eq!(encode_grayscale(&mut sink, &image, 640, 48), Ok(()));
    assert_eq!(sink.into_inner().0, WIDEST_WRITE);
    assert_eq!(WIDEST_WRITE, 4);
}

/// A writer of the standard library as a destination.
struct Writer<W: std::io::Write>(W);

impl<W: std::io::Write> RawSink for Writer<W> {
    type Error = std::io::ErrorKind;

    fn write_raw(&mut self, bytes: &[u8]) -> Result<(), std::io::ErrorKind> {
        self.0.write_all(bytes).map_err(|e| e.kind())
    }
}

#[test]
fn streams_to_a_standard_writer() {
    let image = [1u8, 2, 3, 4, 5, 6];
    let whole = encode_to_vec(&image, 2, 3, DibHeader::Info);

    let mut buffer: Vec<u8> = Vec::new();
    let mut sink = Recorded::new(Writer(std::io::Cursor::new(&mut buffer)));
    assert_eq!(encode_grayscale(&mut sink, &image, 2, 3), Ok(()));
    assert_eq!(buffer, whole);

    // a fixed slice takes what fits and then reports that it is full
    let mut room = [0u8; 100];
    let mut sink = Recorded::new(Writer(&mut room[..]));
    assert_eq!(
        encode_grayscale(&mut sink, &image, 2, 3),
        Err(EncodeError::Io(std::io::ErrorKind::WriteZero))
    );
    assert_eq!(&room[..], &whole[..100]);
}
