use rubbl_io::{AligningReader, ByteSource, EofReadExactExt, Error, OpenResultExt, SliceSource};

fn reader(bytes: &[u8]) -> AligningReader<SliceSource> {
    AligningReader::new(SliceSource::new(bytes.to_vec()))
}

#[test]
fn check_string_size() {
    assert_eq!(Error::UnexpectedEof.description().len(), "unexpected EOF".len());
    assert_eq!(Error::NotFound.description().len(), "not found".len());
}

#[test]
fn exact_read_fills_buffer() {
    let mut src = SliceSource::new(vec![1, 2, 3, 4, 5]);
    let mut buf = [0u8; 3];
    assert!(matches!(src.eof_read_exact(&mut buf), Ok(true)));
    assert_eq!(buf, [1, 2, 3]);
    assert_eq!(src.remaining(), 2);
}

#[test]
fn exact_read_of_nothing_succeeds() {
    let mut src = SliceSource::new(vec![]);
    let mut buf: [u8; 0] = [];
    assert!(matches!(src.eof_read_exact(&mut buf), Ok(true)));
}

#[test]
fn clean_stop_after_last_record() {
    for n in 1..10usize {
        let data: Vec<u8> = (0..n as u8).collect();
        let mut src = SliceSource::new(data.clone());
        let mut buf = vec![0u8; n];
        assert!(matches!(src.eof_read_exact(&mut buf), Ok(true)));
        assert_eq!(buf, data);
        for m in 1..5usize {
            let mut next = vec![0u8; m];
            assert!(matches!(src.eof_read_exact(&mut next), Ok(false)));
        }
    }
}

#[test]
fn truncated_record_is_fatal() {
    for n in 2..10usize {
        for k in 1..n {
            let mut src = SliceSource::new(vec![7u8; k]);
            let mut buf = vec![0u8; n];
            assert!(matches!(src.eof_read_exact(&mut buf), Err(Error::UnexpectedEof)));
        }
    }
}

#[test]
fn decode_be_i64() {
    let mut src = SliceSource::new(vec![0, 0, 0, 0, 0, 0, 1, 2, 0xFF, 0xFF, 0xFF, 0xFF, 0xFF, 0xFF, 0xFF, 0xFE]);
    assert_eq!(src.eof_read_be_i64().unwrap(), Some(258));
    assert_eq!(src.eof_read_be_i64().unwrap(), Some(-2));
    assert_eq!(src.eof_read_be_i64().unwrap(), None);
}

#[test]
fn decode_be_i64_truncated() {
    let mut src = SliceSource::new(vec![0, 0, 0]);
    assert!(matches!(src.eof_read_be_i64(), Err(Error::UnexpectedEof)));
}

#[test]
fn decode_be_f32_bits() {
    let mut src = SliceSource::new(vec![0x3F, 0x80, 0x00, 0x00]);
    let bits = src.eof_read_be_u32().unwrap().unwrap();
    assert_eq!(bits, 0x3F80_0000);
    assert_eq!(f32::from_bits(bits), 1.0f32);
    assert_eq!(src.eof_read_be_u32().unwrap(), None);
}

#[test]
fn decode_be_c64_bits() {
    let mut bytes = 1.0f32.to_be_bytes().to_vec();
    bytes.extend_from_slice(&(-2.0f32).to_be_bytes());
    let mut src = SliceSource::new(bytes);
    let (re, im) = src.eof_read_be_c64_bits().unwrap().unwrap();
    assert_eq!(f32::from_bits(re), 1.0f32);
    assert_eq!(f32::from_bits(im), -2.0f32);
    assert_eq!(src.eof_read_be_c64_bits().unwrap(), None);
}

#[test]
fn decode_be_c64_bits_truncated() {
    let mut src = SliceSource::new(vec![0x3F, 0x80, 0x00, 0x00, 0x00]);
    assert!(matches!(src.eof_read_be_c64_bits(), Err(Error::UnexpectedEof)));
}

#[test]
fn offset_counts_reads() {
    let mut r = reader(&[1, 2, 3, 4, 5, 6]);
    assert_eq!(r.offset(), 0);
    let mut buf = [0u8; 4];
    assert_eq!(r.read(&mut buf).unwrap(), 4);
    assert_eq!(r.offset(), 4);
    assert_eq!(r.read(&mut buf).unwrap(), 2);
    assert_eq!(r.offset(), 6);
    assert_eq!(r.read(&mut buf).unwrap(), 0);
    assert_eq!(r.offset(), 6);
}

#[test]
fn offset_counts_padding() {
    let mut r = reader(&[1, 2, 3, 4, 5, 6, 7, 8, 9, 10]);
    assert_eq!(r.eof_read_be_u32().unwrap(), Some(0x0102_0304));
    assert_eq!(r.offset(), 4);
    assert!(matches!(r.align_to(3), Ok(false)));
    assert_eq!(r.offset(), 6);
    let mut one = [0u8; 1];
    assert!(matches!(r.eof_read_exact(&mut one), Ok(true)));
    assert_eq!(one, [7]);
    assert_eq!(r.offset(), 7);
}

#[test]
fn align_when_aligned_reads_nothing() {
    let mut r = reader(&[1, 2, 3, 4, 5, 6, 7, 8]);
    assert!(matches!(r.align_to(8), Ok(true)));
    assert_eq!(r.offset(), 0);
    let mut buf = [0u8; 4];
    assert!(matches!(r.eof_read_exact(&mut buf), Ok(true)));
    assert!(matches!(r.align_to(4), Ok(true)));
    assert!(matches!(r.align_to(2), Ok(true)));
    assert!(matches!(r.align_to(1), Ok(true)));
    assert_eq!(r.offset(), 4);
    let inner = r.into_inner();
    assert_eq!(inner.remaining(), 4);
}

#[test]
fn align_leaves_multiple() {
    for a in 1..=64usize {
        for pre in 0..20usize {
            let mut r = reader(&vec![0u8; 200]);
            let mut buf = vec![0u8; pre];
            assert!(matches!(r.eof_read_exact(&mut buf), Ok(true)));
            let already = r.align_to(a).unwrap();
            assert_eq!(already, pre % a == 0);
            assert_eq!(r.offset() % a as u64, 0);
            assert!(r.offset() >= pre as u64 && r.offset() < (pre + a) as u64);
        }
    }
}

#[test]
fn align_at_end_of_stream_is_truncation() {
    let mut r = reader(&[1, 2, 3]);
    let mut buf = [0u8; 3];
    assert!(matches!(r.eof_read_exact(&mut buf), Ok(true)));
    assert!(matches!(r.align_to(4), Err(Error::UnexpectedEof)));
    assert_eq!(r.offset(), 3);
}

#[test]
fn record_then_padding_then_stop() {
    let mut r = reader(&[0x00, 0x00, 0x00, 0x05, 0xAA, 0xAA, 0xAA]);
    assert_eq!(r.eof_read_be_u32().unwrap(), Some(5));
    assert_eq!(r.offset(), 4);
    // Four bytes of padding are owed and only three remain.
    assert!(matches!(r.align_to(8), Err(Error::UnexpectedEof)));

    let mut r = reader(&[0x00, 0x00, 0x00, 0x05, 0xAA, 0xAA, 0xAA, 0xAA]);
    assert_eq!(r.eof_read_be_u32().unwrap(), Some(5));
    assert!(matches!(r.align_to(8), Ok(false)));
    assert_eq!(r.offset(), 8);
    let mut buf = [0u8; 5];
    assert!(matches!(r.eof_read_exact(&mut buf), Ok(false)));
    assert_eq!(r.eof_read_be_i64().unwrap(), None);
}

#[test]
fn require_found_cases() {
    let present: Result<Option<u32>, Error> = Ok(Some(17));
    assert_eq!(present.require_found().unwrap(), 17);
    let absent: Result<Option<u32>, Error> = Ok(None);
    assert!(matches!(absent.require_found(), Err(Error::NotFound)));
    let failed: Result<Option<u32>, Error> = Err(Error::UnexpectedEof);
    assert!(matches!(failed.require_found(), Err(Error::UnexpectedEof)));
}

#[test]
fn error_descriptions() {
    assert_eq!(Error::UnexpectedEof.description(), "unexpected EOF");
    assert_eq!(Error::NotFound.description(), "not found");
    let e = rubbl_io::IoError::new(rubbl_io::IoErrorKind::Other, "disk on fire".to_string());
    assert_eq!(e.kind(), rubbl_io::IoErrorKind::Other);
    assert_eq!(Error::Io(e).description(), "disk on fire");
}
