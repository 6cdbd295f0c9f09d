use icc_reader::read_icc_types::{
    extract_key_value, new_xyz, read_dict_type, read_sf32_type, read_text_desc_type,
    read_text_type, read_vcgt_type, read_xyz_type,
};
use icc_reader::rs_types::{tag_kind_of, DecodeError, TagKind};

fn push_u32(b: &mut Vec<u8>, v: u32) {
    b.extend_from_slice(&v.to_be_bytes());
}

fn push_u16(b: &mut Vec<u8>, v: u16) {
    b.extend_from_slice(&v.to_be_bytes());
}

fn text_desc_payload(ascii: &[u8], utf_units: &[u16], declared_utf: u32) -> Vec<u8> {
    let mut b = Vec::new();
    push_u32(&mut b, 0x64657363); // 'desc'
    push_u32(&mut b, 0); // reserved
    push_u32(&mut b, ascii.len() as u32);
    b.extend_from_slice(ascii);
    push_u32(&mut b, 0); // language code
    push_u32(&mut b, declared_utf);
    for u in utf_units {
        push_u16(&mut b, *u);
    }
    b
}

#[test]
fn text_desc_ascii_and_utf16() {
    // three declared UTF-16 units: one skipped, one read ('A'), one terminator
    let b = text_desc_payload(b"hello", &[0x0000, 0x0041, 0x0000], 3);
    let (ascii, utf) = read_text_desc_type(&b, 0).unwrap();
    assert_eq!(ascii, "hello");
    assert_eq!(utf, "A");
}

#[test]
fn text_desc_empty_utf16() {
    // a declared count under 2 leaves nothing after the terminator
    let b = text_desc_payload(b"ab", &[0x0000], 1);
    let (ascii, utf) = read_text_desc_type(&b, 0).unwrap();
    assert_eq!(ascii, "ab");
    assert_eq!(utf, "");
}

#[test]
fn text_desc_utf16_length_out_of_range() {
    // the declared UTF-16 length, doubled and offset, exceeds the buffer
    let b = text_desc_payload(b"hi", &[0x0000, 0x0041, 0x0000], 1000);
    let len = b.len();
    assert_eq!(
        read_text_desc_type(&b, 0),
        Err(DecodeError::OutOfRange { tag_offset: 0, available: len })
    );
}

#[test]
fn text_desc_ascii_length_out_of_range() {
    let mut b = Vec::new();
    push_u32(&mut b, 0x64657363);
    push_u32(&mut b, 0);
    push_u32(&mut b, 9999); // claims far more ASCII bytes than exist
    b.extend_from_slice(b"abc");
    let len = b.len();
    assert_eq!(
        read_text_desc_type(&b, 0),
        Err(DecodeError::OutOfRange { tag_offset: 0, available: len })
    );
}

#[test]
fn text_desc_buffer_shorter_than_header() {
    assert_eq!(
        read_text_desc_type(&[], 0),
        Err(DecodeError::OutOfRange { tag_offset: 0, available: 0 })
    );
    let b = vec![0u8; 11];
    assert_eq!(
        read_text_desc_type(&b, 0),
        Err(DecodeError::OutOfRange { tag_offset: 0, available: 11 })
    );
}

#[test]
fn text_desc_malformed_utf16() {
    // the read window holds a lone high surrogate
    let b = text_desc_payload(b"x", &[0x0000, 0xD800, 0x0000], 3);
    assert_eq!(read_text_desc_type(&b, 0), Err(DecodeError::MalformedText));
}

#[test]
fn text_type_plain() {
    let mut b = Vec::new();
    push_u32(&mut b, 0x63707274); // 'cprt'
    push_u32(&mut b, 0);
    b.extend_from_slice(b"copyright 2024");
    let size = b.len();
    let (sig, text) = read_text_type(&b, 0, size).unwrap();
    assert_eq!(sig, 0x63707274);
    assert_eq!(text, "copyright 2024");
}

#[test]
fn text_type_lossy_replacement() {
    // an invalid UTF-8 byte becomes a replacement character, not an error
    let mut b = Vec::new();
    push_u32(&mut b, 0x63707274);
    push_u32(&mut b, 0);
    b.push(0xFF);
    let (_, text) = read_text_type(&b, 0, 9).unwrap();
    assert_eq!(text, "\u{FFFD}");
}

#[test]
fn text_type_too_short() {
    let b = vec![0u8; 16];
    assert_eq!(
        read_text_type(&b, 0, 7),
        Err(DecodeError::OutOfRange { tag_offset: 0, available: 7 })
    );
}

fn xyz_payload(x: u32, y: u32, z: u32) -> Vec<u8> {
    let mut b = Vec::new();
    push_u32(&mut b, 0x58595A20); // 'XYZ '
    push_u32(&mut b, 0);
    push_u32(&mut b, x);
    push_u32(&mut b, y);
    push_u32(&mut b, z);
    b
}

#[test]
fn xyz_exactly_twelve_usable_bytes() {
    // raw values 1.0, 2.0, -1.0, each scaled by 100 at decode time
    let b = xyz_payload(0x00010000, 0x00020000, 0xFFFF0000);
    let (sig, xyz) = read_xyz_type(&b, 0, 20).unwrap();
    assert_eq!(sig, 0x58595A20);
    assert_eq!(xyz[0].raw, 100 * 0x10000);
    assert_eq!(xyz[1].raw, 200 * 0x10000);
    assert_eq!(xyz[2].raw, -100 * 0x10000);
}

#[test]
fn xyz_under_twelve_usable_bytes() {
    let b = xyz_payload(0x00010000, 0x00020000, 0xFFFF0000);
    assert_eq!(
        read_xyz_type(&b, 0, 19),
        Err(DecodeError::NotLongEnough { available: 19 })
    );
}

#[test]
fn xyz_from_slices() {
    let xyz = new_xyz(
        &[0x00, 0x01, 0x00, 0x00],
        &[0x00, 0x00, 0x80, 0x00],
        &[0x00, 0x00, 0x00, 0x00],
    )
    .unwrap();
    assert_eq!(xyz[0].raw, 0x640000);
    assert_eq!(xyz[1].raw, 0x320000); // 0.5 * 100 = 50.0
    assert_eq!(xyz[2].raw, 0);
    assert_eq!(
        new_xyz(&[0x00], &[0x00, 0x00, 0x80, 0x00], &[0x00, 0x00, 0x00, 0x00]),
        Err(DecodeError::LengthMismatch { expected: 4, got: 1 })
    );
}

#[test]
fn sf32_array_scan() {
    let mut b = Vec::new();
    push_u32(&mut b, 0x73663332); // 'sf32'
    push_u32(&mut b, 0);
    push_u32(&mut b, 0x00010000); // 1.0
    push_u32(&mut b, 0xFFFF8000); // -0.5
    let (sig, values) = read_sf32_type(&b, 0, 16).unwrap();
    assert_eq!(sig, 0x73663332);
    assert_eq!(values.len(), 2);
    assert_eq!(values[0].raw, 0x10000);
    assert_eq!(values[1].raw, -0x8000);
}

#[test]
fn sf32_trailing_bytes_ignored() {
    let mut b = Vec::new();
    push_u32(&mut b, 0x73663332);
    push_u32(&mut b, 0);
    push_u32(&mut b, 0x00010000);
    b.push(0xAA);
    b.push(0xBB);
    // the two trailing bytes do not form a complete chunk
    let (_, values) = read_sf32_type(&b, 0, b.len()).unwrap();
    assert_eq!(values.len(), 1);
    assert_eq!(values[0].raw, 0x10000);
}

#[test]
fn sf32_too_short_for_signature() {
    let b = vec![0u8; 8];
    assert_eq!(
        read_sf32_type(&b, 0, 3),
        Err(DecodeError::OutOfRange { tag_offset: 0, available: 3 })
    );
}

#[test]
fn extract_key_value_field_counts() {
    let mut entry = Vec::new();
    for j in 0..8u32 {
        push_u32(&mut entry, j);
    }
    assert_eq!(extract_key_value(&entry, 16).unwrap(), vec![0, 1, 2, 3]);
    assert_eq!(extract_key_value(&entry, 24).unwrap(), vec![0, 1, 2, 3, 4, 5]);
    assert_eq!(extract_key_value(&entry, 32).unwrap(), vec![0, 1, 2, 3, 4, 5, 6, 7]);
    assert_eq!(
        extract_key_value(&entry, 20),
        Err(DecodeError::BadElementSize { element_size: 20 })
    );
    assert_eq!(
        extract_key_value(&entry[0..8], 16),
        Err(DecodeError::LengthMismatch { expected: 16, got: 8 })
    );
}

#[test]
fn dict_single_entry() {
    let mut b = Vec::new();
    push_u32(&mut b, 0x6D657461); // 'meta'
    push_u32(&mut b, 0);
    push_u32(&mut b, 1); // entry count
    push_u32(&mut b, 16); // element size
    push_u32(&mut b, 32); // name offset
    push_u32(&mut b, 3); // name length
    push_u32(&mut b, 36); // value offset
    push_u32(&mut b, 4); // value length
    b.extend_from_slice(b"mfg\0");
    b.extend_from_slice(b"Acme");
    let (sig, pairs) = read_dict_type(&b, 0, b.len()).unwrap();
    assert_eq!(sig, 0x6D657461);
    assert_eq!(pairs, vec![("mfg".to_string(), "Acme".to_string())]);
}

#[test]
fn dict_display_pairs_in_table_order() {
    let mut b = Vec::new();
    push_u32(&mut b, 0x6D657461);
    push_u32(&mut b, 0);
    push_u32(&mut b, 1);
    push_u32(&mut b, 32); // element size with both display groups
    push_u32(&mut b, 48); // name offset
    push_u32(&mut b, 3);
    push_u32(&mut b, 52); // value offset
    push_u32(&mut b, 4);
    push_u32(&mut b, 56); // display-name offset
    push_u32(&mut b, 2);
    push_u32(&mut b, 58); // display-value offset
    push_u32(&mut b, 2);
    b.extend_from_slice(b"mfg\0");
    b.extend_from_slice(b"Acme");
    b.extend_from_slice(b"DN");
    b.extend_from_slice(b"DV");
    let (_, pairs) = read_dict_type(&b, 0, b.len()).unwrap();
    assert_eq!(
        pairs,
        vec![
            ("mfg".to_string(), "Acme".to_string()),
            ("DN".to_string(), "DV".to_string()),
        ]
    );
}

#[test]
fn dict_bad_element_size() {
    let mut b = Vec::new();
    push_u32(&mut b, 0x6D657461);
    push_u32(&mut b, 0);
    push_u32(&mut b, 1);
    push_u32(&mut b, 20);
    b.resize(64, 0);
    assert_eq!(
        read_dict_type(&b, 0, 64),
        Err(DecodeError::BadElementSize { element_size: 20 })
    );
}

#[test]
fn dict_entry_past_payload_end() {
    let mut b = Vec::new();
    push_u32(&mut b, 0x6D657461);
    push_u32(&mut b, 0);
    push_u32(&mut b, 2); // two entries declared, only one header present
    push_u32(&mut b, 16);
    push_u32(&mut b, 32);
    push_u32(&mut b, 0);
    push_u32(&mut b, 32);
    push_u32(&mut b, 0);
    let size = b.len(); // 32: the second entry header would end at 48
    assert_eq!(
        read_dict_type(&b, 0, size),
        Err(DecodeError::OutOfRange { tag_offset: 0, available: size })
    );
}

#[test]
fn dict_string_range_past_payload_end() {
    let mut b = Vec::new();
    push_u32(&mut b, 0x6D657461);
    push_u32(&mut b, 0);
    push_u32(&mut b, 1);
    push_u32(&mut b, 16);
    push_u32(&mut b, 32); // name offset at the very end
    push_u32(&mut b, 50); // name length reaching past it
    push_u32(&mut b, 0);
    push_u32(&mut b, 0);
    let size = b.len();
    assert_eq!(
        read_dict_type(&b, 0, size),
        Err(DecodeError::OutOfRange { tag_offset: 0, available: size })
    );
}

fn vcgt_ramp_payload(channels: u16, entries: u16, width: u16, samples: &[u16]) -> Vec<u8> {
    let mut b = Vec::new();
    push_u32(&mut b, 0x76636774); // 'vcgt'
    push_u32(&mut b, 0);
    push_u32(&mut b, 0); // gamma type: ramp
    push_u16(&mut b, channels);
    push_u16(&mut b, entries);
    push_u16(&mut b, width);
    for s in samples {
        push_u16(&mut b, *s);
    }
    b
}

#[test]
fn vcgt_full_range_ramp() {
    // two samples per channel spanning the whole 16-bit range
    let b = vcgt_ramp_payload(3, 2, 2, &[0, 65535, 0, 65535, 0, 65535]);
    let vcgt = read_vcgt_type(&b, 0, b.len()).unwrap().unwrap();
    assert_eq!(vcgt.sig, 0x76636774);
    assert_eq!(vcgt.channels_num, 3);
    assert_eq!(vcgt.entries_num, 2);
    assert_eq!(vcgt.bitdepth, 16);
    assert_eq!(vcgt.red_ramp, vec![0, 65535]);
    assert_eq!(vcgt.green_ramp, vec![0, 65535]);
    assert_eq!(vcgt.blue_ramp, vec![0, 65535]);
    for c in 0..3 {
        // min 0%, max 100%, at the 16.16 scale
        assert_eq!(vcgt.min_percent[c].raw, 0);
        assert_eq!(vcgt.max_percent[c].raw, 100 * 0x10000);
    }
    // a full-range spread is far above the 5% warning threshold
    assert!(!vcgt.low_contrast);
}

#[test]
fn vcgt_low_contrast_warning() {
    // constant ramps: zero spread on every channel
    let b = vcgt_ramp_payload(3, 2, 2, &[0x8000; 6]);
    let vcgt = read_vcgt_type(&b, 0, b.len()).unwrap().unwrap();
    assert!(vcgt.low_contrast);
    assert_eq!(vcgt.red_ramp, vec![0x8000, 0x8000]);
}

#[test]
fn vcgt_formula_variant_recognized() {
    let mut b = Vec::new();
    push_u32(&mut b, 0x76636774);
    push_u32(&mut b, 0);
    push_u32(&mut b, 1); // gamma type: formula
    push_u32(&mut b, 0x00026666); // red gamma
    push_u32(&mut b, 0x00000000); // red min
    push_u32(&mut b, 0x00010000); // red max
    assert!(read_vcgt_type(&b, 0, b.len()).unwrap().is_none());
}

#[test]
fn vcgt_formula_variant_too_short() {
    // the formula variant needs 24 bytes for the red channel triple
    let mut b = Vec::new();
    push_u32(&mut b, 0x76636774);
    push_u32(&mut b, 0);
    push_u32(&mut b, 1);
    push_u32(&mut b, 0x00010000);
    assert_eq!(
        read_vcgt_type(&b, 0, b.len()).unwrap_err(),
        DecodeError::OutOfRange { tag_offset: 0, available: 16 }
    );
}

#[test]
fn vcgt_unknown_gamma_type() {
    let mut b = Vec::new();
    push_u32(&mut b, 0x76636774);
    push_u32(&mut b, 0);
    push_u32(&mut b, 2);
    assert_eq!(
        read_vcgt_type(&b, 0, b.len()).unwrap_err(),
        DecodeError::UnknownGammaType { found: 2 }
    );
}

#[test]
fn vcgt_bad_signature() {
    let mut b = Vec::new();
    push_u32(&mut b, 0x61626364); // 'abcd'
    push_u32(&mut b, 0);
    push_u32(&mut b, 0);
    assert_eq!(
        read_vcgt_type(&b, 0, b.len()).unwrap_err(),
        DecodeError::BadSignature { found: 0x61626364 }
    );
}

#[test]
fn vcgt_bad_channel_count() {
    let b = vcgt_ramp_payload(1, 2, 2, &[0, 65535]);
    assert_eq!(
        read_vcgt_type(&b, 0, b.len()).unwrap_err(),
        DecodeError::BadChannelCount { channels: 1 }
    );
}

#[test]
fn vcgt_bad_entry_width() {
    let b = vcgt_ramp_payload(3, 2, 1, &[0, 65535, 0, 65535, 0, 65535]);
    assert_eq!(
        read_vcgt_type(&b, 0, b.len()).unwrap_err(),
        DecodeError::BadEntryWidth { bits: 8 }
    );
}

#[test]
fn vcgt_samples_past_payload_end() {
    // 4 declared entries per channel need 18 + 24 bytes; only 2 are present
    let b = vcgt_ramp_payload(3, 4, 2, &[0, 65535, 0, 65535, 0, 65535]);
    let size = b.len();
    assert_eq!(
        read_vcgt_type(&b, 0, size).unwrap_err(),
        DecodeError::OutOfRange { tag_offset: 0, available: size }
    );
}

#[test]
fn tag_kinds_by_signature() {
    assert_eq!(tag_kind_of(0x64657363), TagKind::TextDescription);
    assert_eq!(tag_kind_of(0x646D6E64), TagKind::TextDescription);
    assert_eq!(tag_kind_of(0x63707274), TagKind::Text);
    assert_eq!(tag_kind_of(0x74617267), TagKind::Text);
    assert_eq!(tag_kind_of(0x77747074), TagKind::Xyz);
    assert_eq!(tag_kind_of(0x626B7074), TagKind::Xyz);
    assert_eq!(tag_kind_of(0x6C756D69), TagKind::Xyz);
    assert_eq!(tag_kind_of(0x6D657461), TagKind::Dict);
    assert_eq!(tag_kind_of(0x61727473), TagKind::FixedArray);
    assert_eq!(tag_kind_of(0x76636774), TagKind::Vcgt);
    assert_eq!(tag_kind_of(0x12345678), TagKind::Unknown);
}
