use lora_receiver::ascii::{
    all_ascii, find_comma, is_digit_byte, is_space_byte, parse_i16, parse_usize, push_decimal,
    trim,
};

fn decimal(n: usize) -> Vec<u8> {
    let mut out = Vec::new();
    push_decimal(&mut out, n);
    out
}

#[test]
fn digits_are_told_from_other_bytes() {
    for b in 0..=255u8 {
        assert_eq!(is_digit_byte(b), b.is_ascii_digit());
    }
}

#[test]
fn whitespace_is_what_trimming_removes() {
    for b in 0..=127u8 {
        assert_eq!(is_space_byte(b), (b as char).is_whitespace());
    }
    for b in 128..=255u8 {
        assert!(!is_space_byte(b));
    }
}

#[test]
fn unsigned_fields_parse_like_text() {
    let samples = [
        "", "0", "9", "10", "007", "+5", "+", "-5", "-", "240", "12a", "a12", " 12", "12 ", "1 2",
        "+-1", "++1", "18446744073709551615", "18446744073709551616", "99999999999999999999999",
        "000000000000000000000000000000000001", "4294967295", "4294967296", "1,2", "1.5",
    ];
    for text in samples {
        assert_eq!(parse_usize(text.as_bytes()), text.parse::<usize>().ok(), "{:?}", text);
    }
}

#[test]
fn unsigned_field_exact_values() {
    assert_eq!(parse_usize(b"9"), Some(9));
    assert_eq!(parse_usize(b"240"), Some(240));
    assert_eq!(parse_usize(b"+17"), Some(17));
    assert_eq!(parse_usize(b"0009"), Some(9));
    assert_eq!(parse_usize(b""), None);
    assert_eq!(parse_usize(b"-1"), None);
    assert_eq!(parse_usize(&[0x31, 0xff]), None);
}

#[test]
fn signed_fields_parse_like_text() {
    let samples = [
        "", "0", "-0", "+0", "7", "-42", "+42", "32767", "32768", "-32768", "-32769", "65535",
        "-", "+", "--1", "-+1", "+-1", "1-", "12x", "x12", " 7", "7 ", "7\r\n", "0000032767",
        "-000032768", "99999999999999999999", "-99999999999999999999", "3.5",
    ];
    for text in samples {
        assert_eq!(parse_i16(text.as_bytes()), text.parse::<i16>().ok(), "{:?}", text);
    }
}

#[test]
fn every_sixteen_bit_number_reads_back() {
    for v in i16::MIN..=i16::MAX {
        let text = format!("{}", v);
        assert_eq!(parse_i16(text.as_bytes()), Some(v));
    }
}

#[test]
fn signed_field_exact_values() {
    assert_eq!(parse_i16(b"-42"), Some(-42));
    assert_eq!(parse_i16(b"7"), Some(7));
    assert_eq!(parse_i16(b"-32768"), Some(i16::MIN));
    assert_eq!(parse_i16(b"32767"), Some(i16::MAX));
    assert_eq!(parse_i16(b"32768"), None);
    assert_eq!(parse_i16(b"-32769"), None);
}

#[test]
fn decimal_writing_is_the_shortest() {
    assert_eq!(decimal(0), b"0".to_vec());
    assert_eq!(decimal(2), b"2".to_vec());
    assert_eq!(decimal(9), b"9".to_vec());
    assert_eq!(decimal(10), b"10".to_vec());
    assert_eq!(decimal(240), b"240".to_vec());
    assert_eq!(decimal(usize::MAX), format!("{}", usize::MAX).into_bytes());
}

#[test]
fn decimal_writing_appends() {
    let mut out = b"AT+SEND=".to_vec();
    push_decimal(&mut out, 1);
    out.push(b',');
    push_decimal(&mut out, 12);
    assert_eq!(out, b"AT+SEND=1,12".to_vec());
}

#[test]
fn decimal_writing_reads_back() {
    let mut n: usize = 0;
    while n < 100_000 {
        assert_eq!(parse_usize(&decimal(n)), Some(n));
        assert_eq!(decimal(n), format!("{}", n).into_bytes());
        n += 7;
    }
}

#[test]
fn first_comma_is_found() {
    let text = b"+RCV=1,9,abc";
    assert_eq!(find_comma(text, 0), 6);
    assert_eq!(find_comma(text, 5), 6);
    assert_eq!(find_comma(text, 6), 6);
    assert_eq!(find_comma(text, 7), 8);
    assert_eq!(find_comma(text, 9), text.len());
    assert_eq!(find_comma(text, text.len()), text.len());
    assert_eq!(find_comma(text, text.len() + 5), text.len());
    assert_eq!(find_comma(b"", 0), 0);
}

#[test]
fn trimming_agrees_with_text_trimming() {
    let samples = [
        "", " ", "7", "7\r\n", " 7 ", "\t\n\x0b\x0c\r 7 \r\n\t", "7 8", "\r\n", "  a b  ", "-12\r\n",
        "\x1f7\x1f", "7\r\n+RC",
    ];
    for text in samples {
        assert_eq!(trim(text.as_bytes()), text.trim().as_bytes(), "{:?}", text);
    }
}

#[test]
fn ascii_is_below_0x80() {
    assert!(all_ascii(b""));
    assert!(all_ascii(b",-42,7\r\n"));
    assert!(all_ascii(&[0x00, 0x7f]));
    assert!(!all_ascii(&[0x80]));
    assert!(!all_ascii(&[0x31, 0x32, 0xc3, 0xa9]));
}
