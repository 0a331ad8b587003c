//! Reading and writing EBML.

use oxideav_mkv::ebml::{
    crc32_ieee, read_bytes, read_element_header, read_float, read_string, read_uint, read_vint,
    skip, Float, VINT_UNKNOWN_SIZE,
};
use oxideav_mkv::error::MkvError;
use oxideav_mkv::write::{
    float_bits, write_bytes_element, write_crc_master_element, write_element_id,
    write_float_element, write_master_element, write_string_element, write_uint_element,
    write_vint,
};

fn vint(n: u64) -> Vec<u8> {
    let mut out = Vec::new();
    write_vint(&mut out, n);
    out
}

#[test]
fn vint_widths() {
    assert_eq!(read_vint(&[0x81], 0, false), Ok((1, 1)));
    assert_eq!(read_vint(&[0x40, 0x02], 0, false), Ok((2, 2)));
    assert_eq!(read_vint(&[0x20, 0x00, 0x03], 0, false), Ok((3, 3)));
    assert_eq!(read_vint(&[0x10, 0, 0, 4], 0, false), Ok((4, 4)));
    assert_eq!(read_vint(&[0x08, 0, 0, 0, 5], 0, false), Ok((5, 5)));
    assert_eq!(read_vint(&[0x04, 0, 0, 0, 0, 6], 0, false), Ok((6, 6)));
    assert_eq!(read_vint(&[0x02, 0, 0, 0, 0, 0, 7], 0, false), Ok((7, 7)));
    assert_eq!(read_vint(&[0x01, 0, 0, 0, 0, 0, 0, 8], 0, false), Ok((8, 8)));
}

#[test]
fn vint_keeps_the_marker_of_an_id() {
    assert_eq!(read_vint(&[0x1A, 0x45, 0xDF, 0xA3], 0, true), Ok((0x1A45DFA3, 4)));
}

#[test]
fn vint_with_all_bits_set_is_unknown() {
    assert_eq!(read_vint(&[0xFF], 0, false), Ok((VINT_UNKNOWN_SIZE, 1)));
    assert_eq!(read_vint(&[0x7F, 0xFF], 0, false), Ok((VINT_UNKNOWN_SIZE, 2)));
    assert_eq!(
        read_vint(&[0x01, 0xFF, 0xFF, 0xFF, 0xFF, 0xFF, 0xFF, 0xFF], 0, false),
        Ok((VINT_UNKNOWN_SIZE, 8))
    );
    assert_eq!(read_vint(&[0xFF], 0, true), Ok((0xFF, 1)));
}

#[test]
fn vint_errors() {
    assert_eq!(read_vint(&[], 0, false), Err(MkvError::UnexpectedEof));
    assert_eq!(read_vint(&[0x40], 0, false), Err(MkvError::UnexpectedEof));
    assert_eq!(read_vint(&[0x00, 0x81], 0, false), Err(MkvError::InvalidVint));
    assert_eq!(read_vint(&[0x81], u64::MAX, false), Err(MkvError::UnexpectedEof));
}

#[test]
fn vint_written() {
    assert_eq!(vint(0), vec![0x80]);
    assert_eq!(vint(1), vec![0x81]);
    assert_eq!(vint(0x7E), vec![0xFE]);
    assert_eq!(vint(0x7F), vec![0x40, 0x7F]);
    assert_eq!(vint(0x3FFE), vec![0x7F, 0xFE]);
    assert_eq!(vint(0x3FFF), vec![0x20, 0x3F, 0xFF]);
    assert_eq!(vint(VINT_UNKNOWN_SIZE), vec![0x01, 0xFF, 0xFF, 0xFF, 0xFF, 0xFF, 0xFF, 0xFF]);
}

#[test]
fn vint_written_is_read_back() {
    let mut n: u64 = 1;
    while n < 0xFF_FFFF_FFFF_FFFF {
        for v in [n - 1, n, n + 1] {
            let b = vint(v);
            assert_eq!(read_vint(&b, 0, false), Ok((v, b.len() as u64)));
        }
        n = n * 2;
    }
    assert_eq!(read_vint(&vint(VINT_UNKNOWN_SIZE), 0, false), Ok((VINT_UNKNOWN_SIZE, 8)));
}

#[test]
fn headers() {
    let h = read_element_header(&[0x42, 0x86, 0x81, 0x01], 0).unwrap();
    assert_eq!((h.id, h.size, h.header_len), (0x4286, 1, 3));
    assert_eq!(
        read_element_header(&[0x08, 0, 0, 0, 1, 0x80], 0),
        Err(MkvError::InvalidElementId)
    );
    assert_eq!(read_element_header(&[0xEC], 0), Err(MkvError::UnexpectedEof));
}

#[test]
fn element_ids_take_their_own_length() {
    for (id, n) in [(0xA3u32, 1usize), (0x4286, 2), (0x2AD7B1, 3), (0x1A45DFA3, 4)] {
        let mut out = Vec::new();
        write_element_id(&mut out, id);
        assert_eq!(out.len(), n);
        assert_eq!(read_vint(&out, 0, true), Ok((id as u64, n as u64)));
    }
}

#[test]
fn numbers() {
    assert_eq!(read_uint(&[], 0, 0), Ok(0));
    assert_eq!(read_uint(&[1, 2, 3], 0, 3), Ok(0x010203));
    assert_eq!(read_uint(&[0xFF; 8], 0, 8), Ok(u64::MAX));
    assert_eq!(read_uint(&[0; 9], 0, 9), Err(MkvError::InvalidUintSize));
    assert_eq!(read_uint(&[1, 2], 1, 2), Err(MkvError::UnexpectedEof));
}

#[test]
fn number_elements_are_as_short_as_can_be() {
    let mut out = Vec::new();
    write_uint_element(&mut out, 0xD7, 0);
    assert_eq!(out, vec![0xD7, 0x81, 0x00]);
    out.clear();
    write_uint_element(&mut out, 0xD7, 0xFF);
    assert_eq!(out, vec![0xD7, 0x81, 0xFF]);
    out.clear();
    write_uint_element(&mut out, 0xD7, 0x100);
    assert_eq!(out, vec![0xD7, 0x82, 0x01, 0x00]);
    out.clear();
    write_uint_element(&mut out, 0xD7, u64::MAX);
    assert_eq!(out, vec![0xD7, 0x88, 0xFF, 0xFF, 0xFF, 0xFF, 0xFF, 0xFF, 0xFF, 0xFF]);
}

#[test]
fn floats() {
    assert_eq!(read_float(&[], 0, 0), Ok(Float::Double(0)));
    assert_eq!(
        read_float(&1.5f32.to_be_bytes(), 0, 4),
        Ok(Float::Single(1.5f32.to_bits()))
    );
    assert_eq!(
        read_float(&(-2.25f64).to_be_bytes(), 0, 8),
        Ok(Float::Double((-2.25f64).to_bits()))
    );
    assert_eq!(read_float(&[0, 0, 0], 0, 3), Err(MkvError::InvalidFloatSize));
    assert_eq!(read_float(&[0, 0], 0, 4), Err(MkvError::UnexpectedEof));
}

#[test]
fn float_signs() {
    assert!(Float::Double(0f64.to_bits()).is_zero());
    assert!(Float::Double((-0f64).to_bits()).is_zero());
    assert!(!Float::Double(1f64.to_bits()).is_zero());
    assert!(Float::Single(0.5f32.to_bits()).is_positive());
    assert!(!Float::Single((-0.5f32).to_bits()).is_positive());
    assert!(!Float::Double(f64::NAN.to_bits()).is_positive());
    assert!(Float::Double(f64::INFINITY.to_bits()).is_positive());
    assert!(!Float::Double(0f64.to_bits()).is_positive());
}

#[test]
fn whole_numbers_as_floats() {
    for v in [0u32, 1, 2, 3, 8000, 22050, 44100, 48000, 96000, 0x8000_0000, u32::MAX] {
        assert_eq!(float_bits(v), (v as f64).to_bits());
    }
}

#[test]
fn texts() {
    assert_eq!(read_string(b"webm", 0, 4), Ok("webm".to_string()));
    assert_eq!(read_string(b"we\0bm", 0, 5), Ok("we".to_string()));
    assert_eq!(read_string("žluťoučký".as_bytes(), 0, 13), Ok("žluťoučký".to_string()));
    assert_eq!(read_string(&[b'a', 0xFF, b'b'], 0, 3), Ok("a\u{FFFD}b".to_string()));
    assert_eq!(read_string(b"", 0, 0), Ok(String::new()));
    assert_eq!(read_string(b"abc", 0, 4), Err(MkvError::UnexpectedEof));
}

#[test]
fn bytes_and_skips() {
    assert_eq!(read_bytes(&[1, 2, 3], 1, 2), Ok(vec![2, 3]));
    assert_eq!(read_bytes(&[1, 2, 3], 9, 0), Ok(vec![]));
    assert_eq!(read_bytes(&[1, 2, 3], 2, 2), Err(MkvError::UnexpectedEof));
    assert_eq!(skip(5, 7), Ok(12));
    assert_eq!(skip(5, u64::MAX), Err(MkvError::InvalidSkip));
    assert_eq!(skip(u64::MAX, 1), Err(MkvError::InvalidSkip));
}

#[test]
fn checksums() {
    assert_eq!(crc32_ieee(b"123456789"), 0xCBF4_3926);
    assert_eq!(crc32_ieee(b""), 0);
}

#[test]
fn elements_written() {
    let mut out = Vec::new();
    write_string_element(&mut out, 0x4282, "webm");
    assert_eq!(out, b"\x42\x82\x84webm".to_vec());
    out.clear();
    write_bytes_element(&mut out, 0x63A2, &[9, 8]);
    assert_eq!(out, vec![0x63, 0xA2, 0x82, 9, 8]);
    out.clear();
    write_float_element(&mut out, 0xB5, 48000f64.to_bits());
    let mut want = vec![0xB5, 0x88];
    want.extend_from_slice(&48000f64.to_be_bytes());
    assert_eq!(out, want);
    out.clear();
    write_master_element(&mut out, 0xAE, &vec![0xD7, 0x81, 0x01]);
    assert_eq!(out, vec![0xAE, 0x83, 0xD7, 0x81, 0x01]);
}

#[test]
fn checksum_comes_first() {
    let body = vec![0xD7, 0x81, 0x01];
    let crc = crc32_ieee(&body);
    let mut out = Vec::new();
    write_crc_master_element(&mut out, 0xAE, &body);
    let mut want = vec![0xAE, 0x89, 0xBF, 0x84];
    want.extend_from_slice(&crc.to_le_bytes());
    want.extend_from_slice(&body);
    assert_eq!(out, want);
}
