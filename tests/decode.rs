use std::time::{Duration, SystemTime, UNIX_EPOCH};

use gzip_envelope::decode::{
    compression_method, extra_field, extra_flags, file_comment, find_terminator, flags,
    footer_crc32, get_byte, gzip_file, gzip_footer, gzip_header, header_crc16, id1, id2,
    input_size, modified_time_as_secs_since_epoch, null_terminated_string, operating_system,
    original_filename, sub_field,
};
use gzip_envelope::types::{
    CompressionMethod, ExtraFlags, Flags, GzipError, GzipFooter, GzipHeader, OperatingSystem,
    SubField,
};

const EMPTY: &[u8] = &[];

fn check_null_terminated(func: fn(&[u8]) -> Result<(&[u8], String), GzipError>) {
    let input = &b"This is null-terminated\0"[..];
    let expected = String::from("This is null-terminated");
    match func(input) {
        Ok((_, actual)) => assert_eq!(actual, expected),
        unexpected => panic!("Unable to parse null-terminated string, got back {:?}", unexpected),
    }
}

fn check_u16(func: fn(&[u8]) -> Result<(&[u8], u16), GzipError>) {
    for expected in 0x0000u16..0xffffu16 {
        let buf = expected.to_le_bytes();
        assert_eq!(func(&buf[..]), Ok((EMPTY, expected)));
    }
}

fn check_u32(func: fn(&[u8]) -> Result<(&[u8], u32), GzipError>) {
    let samples: [u32; 6] = [0x00000000, 0xffffffff, 0xff00ff00, 0x00ff00ff, 0x01234567, 0x89abcdef];
    for expected in samples.iter() {
        let buf = expected.to_le_bytes();
        assert_eq!(func(&buf[..]), Ok((EMPTY, *expected)));
    }
}

#[test]
fn test_id1() {
    let input: &[u8] = &[0x1f][..];
    assert_eq!(id1(input), Ok((EMPTY, input)));
}

#[test]
fn test_id2() {
    let input: &[u8] = &[0x8b][..];
    assert_eq!(id2(input), Ok((EMPTY, input)));
}

#[test]
fn test_compression_method() {
    assert_eq!(compression_method(&[0x00][..]), Ok((EMPTY, CompressionMethod::Reserved0)));
    assert_eq!(compression_method(&[0x01][..]), Ok((EMPTY, CompressionMethod::Reserved1)));
    assert_eq!(compression_method(&[0x02][..]), Ok((EMPTY, CompressionMethod::Reserved2)));
    assert_eq!(compression_method(&[0x03][..]), Ok((EMPTY, CompressionMethod::Reserved3)));
    assert_eq!(compression_method(&[0x04][..]), Ok((EMPTY, CompressionMethod::Reserved4)));
    assert_eq!(compression_method(&[0x05][..]), Ok((EMPTY, CompressionMethod::Reserved5)));
    assert_eq!(compression_method(&[0x06][..]), Ok((EMPTY, CompressionMethod::Reserved6)));
    assert_eq!(compression_method(&[0x07][..]), Ok((EMPTY, CompressionMethod::Reserved7)));
    assert_eq!(compression_method(&[0x08][..]), Ok((EMPTY, CompressionMethod::Deflate)));
    for b in 0x09u8..0xffu8 {
        assert_eq!(compression_method(&[b][..]), Ok((EMPTY, CompressionMethod::Unknown)));
    }
}

#[test]
fn test_flags() {
    for byte in 0b0000_0000..0b0001_1111 {
        let expected = Ok((
            EMPTY,
            Flags {
                ftext: byte & 0b0000_0001 > 0,
                fhcrc: byte & 0b0000_0010 > 0,
                fextra: byte & 0b0000_0100 > 0,
                fname: byte & 0b0000_1000 > 0,
                fcomment: byte & 0b0001_0000 > 0,
            },
        ));
        assert_eq!(flags(&[byte][..]), expected);
    }
}

#[test]
fn test_modified_time_as_secs_since_epoch() {
    let now = SystemTime::now();
    let expected = Duration::from_secs(now.duration_since(UNIX_EPOCH).unwrap().as_secs());
    let buffer = (expected.as_secs() as u32).to_le_bytes();
    match modified_time_as_secs_since_epoch(&buffer[..]) {
        Ok((remaining, actual)) => {
            assert_eq!(remaining, EMPTY);
            assert_eq!(Duration::from_secs(actual as u64), expected);
        }
        _ => panic!(""),
    }
}

#[test]
fn test_extra_flags() {
    assert_eq!(extra_flags(&[0x02u8][..]), Ok((EMPTY, ExtraFlags::MaximumCompression)));
    assert_eq!(extra_flags(&[0x04u8][..]), Ok((EMPTY, ExtraFlags::FastestAlgorithm)));
    for byte in 0x00u8..0xffu8 {
        let masked = byte & 0b1111_1001;
        assert_eq!(extra_flags(&[masked][..]), Ok((EMPTY, ExtraFlags::Unknown)));
    }
}

#[test]
fn test_operating_system() {
    assert_eq!(operating_system(&[0u8][..]), Ok((EMPTY, OperatingSystem::Fat)));
    assert_eq!(operating_system(&[1u8][..]), Ok((EMPTY, OperatingSystem::Amiga)));
    assert_eq!(operating_system(&[2u8][..]), Ok((EMPTY, OperatingSystem::Vms)));
    assert_eq!(operating_system(&[3u8][..]), Ok((EMPTY, OperatingSystem::Unix)));
    assert_eq!(operating_system(&[4u8][..]), Ok((EMPTY, OperatingSystem::VmCms)));
    assert_eq!(operating_system(&[5u8][..]), Ok((EMPTY, OperatingSystem::AtariTos)));
    assert_eq!(operating_system(&[6u8][..]), Ok((EMPTY, OperatingSystem::Hpfs)));
    assert_eq!(operating_system(&[7u8][..]), Ok((EMPTY, OperatingSystem::Macintosh)));
    assert_eq!(operating_system(&[8u8][..]), Ok((EMPTY, OperatingSystem::Zsystem)));
    assert_eq!(operating_system(&[9u8][..]), Ok((EMPTY, OperatingSystem::Cpm)));
    assert_eq!(operating_system(&[10u8][..]), Ok((EMPTY, OperatingSystem::Tops20)));
    assert_eq!(operating_system(&[11u8][..]), Ok((EMPTY, OperatingSystem::Ntfs)));
    assert_eq!(operating_system(&[12u8][..]), Ok((EMPTY, OperatingSystem::Qdos)));
    assert_eq!(operating_system(&[13u8][..]), Ok((EMPTY, OperatingSystem::AcornRiscos)));
    for b in 14u8..0xffu8 {
        assert_eq!(operating_system(&[b][..]), Ok((EMPTY, OperatingSystem::Unknown)));
    }
}

#[test]
fn test_sub_field() {
    let mut field: [u8; 8] = [0; 8];
    for (pos, val) in "cp  cpio".bytes().enumerate() {
        field[pos] = val;
    }
    field[2..4].copy_from_slice(&4u16.to_le_bytes());

    assert_eq!(
        sub_field(&field[..]),
        Ok((EMPTY, SubField { id1: 'c' as u8, id2: 'p' as u8, data: &b"cpio"[..] }))
    );
}

#[test]
fn test_extra_field() {
    let mut xfield: [u8; 42] = [0; 42];
    for (pos, val) in "  cp  cpio.Ac  acorn.KN  keynote assertion".bytes().enumerate() {
        xfield[pos] = val;
    }
    xfield[0..2].copy_from_slice(&40u16.to_le_bytes());
    xfield[4..6].copy_from_slice(&5u16.to_le_bytes());
    xfield[13..15].copy_from_slice(&6u16.to_le_bytes());
    xfield[23..25].copy_from_slice(&17u16.to_le_bytes());

    match extra_field(&xfield[..]) {
        Ok((_, actual)) => {
            assert!(actual.sub_fields.contains(&SubField {
                id1: 'c' as u8,
                id2: 'p' as u8,
                data: &b"cpio."[..],
            }));
            assert!(actual.sub_fields.contains(&SubField {
                id1: 'A' as u8,
                id2: 'c' as u8,
                data: &b"acorn."[..],
            }));
            assert!(actual.sub_fields.contains(&SubField {
                id1: 'K' as u8,
                id2: 'N' as u8,
                data: &b"keynote assertion"[..],
            }));
        }
        unexpected => panic!("Unable to parse extra field, got back {:?}", unexpected),
    }
}

#[test]
fn test_get_byte() {
    for expected in 0x00u8..0xffu8 {
        assert_eq!(get_byte(&[expected][..]), Ok((EMPTY, expected)));
    }
}

#[test]
fn test_null_terminated_string() {
    check_null_terminated(null_terminated_string);
}

#[test]
fn test_original_filename() {
    check_null_terminated(original_filename);
}

#[test]
fn test_file_comment() {
    check_null_terminated(file_comment);
}

#[test]
fn test_header_crc16() {
    check_u16(header_crc16);
}

#[test]
fn test_footer_crc32() {
    check_u32(footer_crc32);
}

#[test]
fn test_input_size() {
    check_u32(input_size);
}

// A single-member stream: fixed header with the file name "sample.txt",
// an opaque payload, and the footer.
const HEADER_SIZE: usize = 10 + (10 + 1);
const FOOTER_SIZE: usize = 8;
const PAYLOAD: &[u8] = &[0x4b, 0x4c, 0x4a, 0x06, 0x00, 0x13, 0x37, 0xc0, 0xde, 0x01, 0x02];

fn sample_gzip_file() -> Vec<u8> {
    let mut v = vec![0x1f, 0x8b, 0x08, 0b0000_1000];
    v.extend_from_slice(&0x599e86e7u32.to_le_bytes());
    v.push(2);
    v.push(3);
    v.extend_from_slice(b"sample.txt\0");
    v.extend_from_slice(PAYLOAD);
    v.extend_from_slice(&0xbd47c3dcu32.to_le_bytes());
    v.extend_from_slice(&0x0000738fu32.to_le_bytes());
    v
}

fn validate_header(header: &GzipHeader) {
    assert_eq!(header.compression_method, CompressionMethod::Deflate);
    assert!(!header.flags.ftext);
    assert!(!header.flags.fhcrc);
    assert!(!header.flags.fextra);
    assert!(header.flags.fname);
    assert!(!header.flags.fcomment);
    assert_eq!(header.modified_time_as_secs_since_epoch, 0x599e86e7);
    assert_eq!(header.extra_flags, ExtraFlags::MaximumCompression);
    assert_eq!(header.operating_system, OperatingSystem::Unix);
    assert_eq!(header.extra_field, None);
    assert_eq!(header.original_filename, Some(String::from("sample.txt")));
    assert_eq!(header.file_comment, None);
    assert_eq!(header.header_crc, None);
}

fn validate_footer(footer: &GzipFooter) {
    assert_eq!(footer.crc, 0xbd47c3dc);
    assert_eq!(footer.input_size, 0x0000738f);
}

#[test]
fn it_header() {
    let sample = sample_gzip_file();
    match gzip_header(&sample) {
        Ok((remaining, header)) => {
            validate_header(&header);
            assert_eq!(remaining.len(), sample.len() - HEADER_SIZE);
            assert_eq!(remaining.len(), PAYLOAD.len() + FOOTER_SIZE);
        }
        unexpected => panic!("Expected a GZIP header, got this instead: {:?}", unexpected),
    }
}

#[test]
fn it_footer() {
    let sample = sample_gzip_file();
    match gzip_footer(&sample[(sample.len() - FOOTER_SIZE)..]) {
        Ok((remaining, footer)) => {
            validate_footer(&footer);
            assert_eq!(remaining.len(), 0);
        }
        unexpected => panic!("Expected a GZIP footer, got this instead: {:?}", unexpected),
    }
}

#[test]
fn it_whole_file() {
    let sample = sample_gzip_file();
    match gzip_file(&sample) {
        Ok((_, gz_file)) => {
            validate_header(&gz_file.header);
            assert_eq!(gz_file.compressed_blocks.len(), sample.len() - HEADER_SIZE - FOOTER_SIZE);
            assert_eq!(gz_file.compressed_blocks, PAYLOAD.to_vec());
            validate_footer(&gz_file.footer);
        }
        unexpected => panic!("Expected a GZIP file, got this instead: {:?}", unexpected),
    }
}

#[test]
fn string_abc_leaves_nothing() {
    assert_eq!(null_terminated_string(b"abc\0"), Ok((EMPTY, String::from("abc"))));
    assert_eq!(null_terminated_string(b"ab\0cd"), Ok((&b"cd"[..], String::from("ab"))));
    assert_eq!(null_terminated_string(b"\0"), Ok((EMPTY, String::new())));
}

#[test]
fn string_without_terminator() {
    assert_eq!(null_terminated_string(b"abc"), Err(GzipError::UnterminatedString));
    assert_eq!(null_terminated_string(EMPTY), Err(GzipError::UnterminatedString));
    assert_eq!(find_terminator(b"abc"), None);
    assert_eq!(find_terminator(b"a\0b\0"), Some(1));
}

#[test]
fn string_utf8_decoding() {
    assert_eq!(
        null_terminated_string(&[0xc3, 0xa9, b't', b'e', 0x00]),
        Ok((EMPTY, String::from("\u{e9}te")))
    );
    assert_eq!(null_terminated_string(&[0xff, 0xfe, 0x00]), Err(GzipError::InvalidEncoding));
}

fn two_records(declared: u16) -> Vec<u8> {
    // "ab" with 3 data bytes, then "cd" with 2: 4 + 3 + 4 + 2 = 13 bytes.
    let mut v = declared.to_le_bytes().to_vec();
    v.extend_from_slice(&[b'a', b'b', 3, 0, 1, 2, 3]);
    v.extend_from_slice(&[b'c', b'd', 2, 0, 9, 8]);
    v.push(0x77);
    v
}

#[test]
fn extra_field_two_records_in_order() {
    let input = two_records(13);
    let (rest, field) = extra_field(&input).unwrap();
    assert_eq!(rest, &[0x77][..]);
    assert_eq!(
        field.sub_fields,
        vec![
            SubField { id1: b'a', id2: b'b', data: &[1, 2, 3][..] },
            SubField { id1: b'c', id2: b'd', data: &[9, 8][..] },
        ]
    );
}

#[test]
fn extra_field_one_byte_short() {
    let input = two_records(12);
    assert_eq!(extra_field(&input), Err(GzipError::MalformedExtraField));
}

#[test]
fn extra_field_empty_and_overlong() {
    let (rest, field) = extra_field(&[0, 0, 5]).unwrap();
    assert_eq!(rest, &[5][..]);
    assert!(field.sub_fields.is_empty());
    assert_eq!(extra_field(&[10, 0, 1, 2]), Err(GzipError::InsufficientData));
    assert_eq!(extra_field(&[1]), Err(GzipError::InsufficientData));
}

#[test]
fn short_header_inputs() {
    let full = sample_gzip_file();
    for n in 0..10 {
        let r = gzip_header(&full[..n]);
        assert!(matches!(r, Err(GzipError::InsufficientData) | Err(GzipError::MagicMismatch)));
    }
    assert_eq!(gzip_header(EMPTY).unwrap_err(), GzipError::InsufficientData);
    assert_eq!(gzip_header(&[0x1f, 0x00]).unwrap_err(), GzipError::MagicMismatch);
    assert_eq!(gzip_header(&[0x00]).unwrap_err(), GzipError::MagicMismatch);
    assert_eq!(gzip_header(&[0x1f, 0x8b, 8]).unwrap_err(), GzipError::InsufficientData);
    assert_eq!(id1(&[0x8b]), Err(GzipError::MagicMismatch));
}

#[test]
fn header_with_every_optional_field() {
    let mut v = vec![0x1f, 0x8b, 0x08, 0b0001_1111, 1, 0, 0, 0, 4, 255];
    v.extend_from_slice(&[6, 0, b'X', b'Y', 2, 0, 7, 7]);
    v.extend_from_slice(b"name\0");
    v.extend_from_slice(b"comment\0");
    v.extend_from_slice(&0x1234u16.to_le_bytes());
    v.push(0xaa);
    let (rest, header) = gzip_header(&v).unwrap();
    assert_eq!(rest, &[0xaa][..]);
    assert!(header.flags.ftext);
    assert_eq!(header.modified_time_as_secs_since_epoch, 1);
    assert_eq!(header.extra_flags, ExtraFlags::FastestAlgorithm);
    assert_eq!(header.operating_system, OperatingSystem::Unknown);
    assert_eq!(
        header.extra_field.unwrap().sub_fields,
        vec![SubField { id1: b'X', id2: b'Y', data: &[7, 7][..] }]
    );
    assert_eq!(header.original_filename, Some(String::from("name")));
    assert_eq!(header.file_comment, Some(String::from("comment")));
    assert_eq!(header.header_crc, Some(0x1234));
}

#[test]
fn header_errors_from_optional_fields() {
    let mut v = vec![0x1f, 0x8b, 0x08, 0b0000_1000, 0, 0, 0, 0, 0, 3];
    v.extend_from_slice(b"no end");
    assert_eq!(gzip_header(&v).unwrap_err(), GzipError::UnterminatedString);
    let w = vec![0x1f, 0x8b, 0x08, 0b0000_0010, 0, 0, 0, 0, 0, 3, 1];
    assert_eq!(gzip_header(&w).unwrap_err(), GzipError::InsufficientData);
}

#[test]
fn footer_errors() {
    assert_eq!(gzip_footer(&[1, 0, 0, 0, 2, 0, 0, 0]), Ok((EMPTY, GzipFooter { crc: 1, input_size: 2 })));
    assert_eq!(gzip_footer(&[1, 0, 0, 0, 2, 0, 0, 0, 9]), Err(GzipError::FooterNotAtEnd));
    assert_eq!(gzip_footer(&[1, 0, 0, 0, 2, 0, 0]), Err(GzipError::InsufficientData));
}

#[test]
fn whole_file_truncated_and_empty_payload() {
    let mut sample = sample_gzip_file();
    let header_only = &sample[..HEADER_SIZE + 7];
    assert_eq!(gzip_file(header_only).unwrap_err(), GzipError::TruncatedFile);
    sample.drain(HEADER_SIZE..HEADER_SIZE + PAYLOAD.len());
    let (rest, file) = gzip_file(&sample).unwrap();
    assert!(rest.is_empty());
    assert!(file.compressed_blocks.is_empty());
    validate_footer(&file.footer);
    assert_eq!(gzip_file(&[0x1f, 0x8c]).unwrap_err(), GzipError::MagicMismatch);
}
