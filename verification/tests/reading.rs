use xu4fan::{parse_millidegrees, read_temperature, FanError, SensorRead};

fn by_std(content: &[u8]) -> Result<u32, FanError> {
    match std::str::from_utf8(content) {
        Ok(text) => text.trim().parse::<u32>().map_err(|_| FanError::Format),
        Err(_) => Err(FanError::Format),
    }
}

#[test]
fn content_with_newline_is_read() {
    assert_eq!(parse_millidegrees(b"50000\n"), Ok(50000));
    assert_eq!(parse_millidegrees(b"45230\n"), Ok(45230));
}

#[test]
fn letters_are_a_format_error() {
    assert_eq!(parse_millidegrees(b"abc"), Err(FanError::Format));
}

#[test]
fn empty_content_is_a_format_error() {
    assert_eq!(parse_millidegrees(b""), Err(FanError::Format));
    assert_eq!(parse_millidegrees(b" \n\t"), Err(FanError::Format));
}

#[test]
fn white_space_around_the_number_is_dropped() {
    assert_eq!(parse_millidegrees(b"  \t42\r\n"), Ok(42));
    assert_eq!(parse_millidegrees(b"\x0b\x0c7\x0c\x0b"), Ok(7));
    assert_eq!(parse_millidegrees("\u{a0}45230\u{2003}".as_bytes()), Ok(45230));
    assert_eq!(parse_millidegrees("\u{3000}\u{85}1\u{1680}\u{205f}".as_bytes()), Ok(1));
}

#[test]
fn white_space_inside_the_number_is_refused() {
    assert_eq!(parse_millidegrees(b"4 2"), Err(FanError::Format));
    assert_eq!(parse_millidegrees(b"+ 2"), Err(FanError::Format));
}

#[test]
fn a_plus_sign_may_lead() {
    assert_eq!(parse_millidegrees(b"+5"), Ok(5));
    assert_eq!(parse_millidegrees(b"+"), Err(FanError::Format));
    assert_eq!(parse_millidegrees(b"++5"), Err(FanError::Format));
    assert_eq!(parse_millidegrees(b"5+"), Err(FanError::Format));
}

#[test]
fn negative_numbers_are_refused() {
    assert_eq!(parse_millidegrees(b"-5"), Err(FanError::Format));
    assert_eq!(parse_millidegrees(b"-0"), Err(FanError::Format));
    assert_eq!(parse_millidegrees(b"-"), Err(FanError::Format));
}

#[test]
fn the_value_has_to_fit_in_32_bits() {
    assert_eq!(parse_millidegrees(b"4294967295"), Ok(u32::MAX));
    assert_eq!(parse_millidegrees(b"4294967296"), Err(FanError::Format));
    assert_eq!(parse_millidegrees(b"99999999999999999999999999"), Err(FanError::Format));
    assert_eq!(parse_millidegrees(b"00000000000000000000000017"), Ok(17));
    assert_eq!(parse_millidegrees(b"0"), Ok(0));
}

#[test]
fn fractions_and_other_text_are_refused() {
    assert_eq!(parse_millidegrees(b"45.2"), Err(FanError::Format));
    assert_eq!(parse_millidegrees(b"0x10"), Err(FanError::Format));
    assert_eq!(parse_millidegrees(b"12C"), Err(FanError::Format));
}

#[test]
fn bytes_that_are_no_text_are_refused() {
    assert_eq!(parse_millidegrees(&[0x35, 0xff]), Err(FanError::Format));
    assert_eq!(parse_millidegrees(&[0xc2, 0x35]), Err(FanError::Format));
    assert_eq!(parse_millidegrees(&[0x35, 0xc2]), Err(FanError::Format));
    assert_eq!(parse_millidegrees(&[0xe2, 0x80, 0x35]), Err(FanError::Format));
}

#[test]
fn parsing_agrees_with_the_standard_library() {
    let pieces: [&[u8]; 22] = [
        b"",
        b" ",
        b"\n",
        b"\t",
        b"+",
        b"-",
        b"0",
        b"7",
        b"42",
        b"4294967295",
        b"4294967296",
        b"a",
        &[0xc2, 0x85],
        &[0xc2, 0xa0],
        &[0xc2, 0xa1],
        &[0xe1, 0x9a, 0x80],
        &[0xe2, 0x80, 0x8a],
        &[0xe2, 0x80, 0x8b],
        &[0xe2, 0x81, 0x9f],
        &[0xe3, 0x80, 0x80],
        &[0xc2],
        &[0x80],
    ];
    let mut checked = 0;
    for a in pieces.iter() {
        for b in pieces.iter() {
            for c in pieces.iter() {
                let mut content: Vec<u8> = Vec::new();
                content.extend_from_slice(a);
                content.extend_from_slice(b);
                content.extend_from_slice(c);
                assert_eq!(parse_millidegrees(&content), by_std(&content), "{:?}", content);
                checked += 1;
            }
        }
    }
    assert_eq!(checked, 22 * 22 * 22);
}

#[test]
fn every_single_byte_agrees_with_the_standard_library() {
    for b in 0..=255u8 {
        assert_eq!(parse_millidegrees(&[b]), by_std(&[b]));
        assert_eq!(parse_millidegrees(&[b, 0x31]), by_std(&[b, 0x31]));
        assert_eq!(parse_millidegrees(&[0x31, b]), by_std(&[0x31, b]));
        assert_eq!(parse_millidegrees(&[0xc2, b, 0x31]), by_std(&[0xc2, b, 0x31]));
        assert_eq!(parse_millidegrees(&[0x31, 0xe2, 0x80, b]), by_std(&[0x31, 0xe2, 0x80, b]));
    }
}

#[test]
fn a_read_gives_its_content_as_a_temperature() {
    assert_eq!(read_temperature(&SensorRead::Content(b"50000\n".to_vec())), Ok(50000));
    assert_eq!(read_temperature(&SensorRead::Content(b"abc".to_vec())), Err(FanError::Format));
    assert_eq!(read_temperature(&SensorRead::Content(Vec::new())), Err(FanError::Format));
}

#[test]
fn a_failed_read_is_an_io_error() {
    assert_eq!(read_temperature(&SensorRead::Failed), Err(FanError::Io));
}
