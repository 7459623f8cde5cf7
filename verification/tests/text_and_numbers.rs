use osu_formats::number::{
    decimal_of, is_real_text, parse_digits, parse_i16, parse_i64, parse_signed, parse_u16,
    parse_u32, parse_u64, parse_u8, parse_unsigned, parse_usize, RealLiteral,
};
use osu_formats::text::{
    chars_of, chars_of_all, copy_range, find_char, is_space_char, is_word, same_chars,
    split_chars, split_key_value, split_words, string_of, trim_chars,
};
use osu_formats::bytes::{read_byte, read_int, read_long, read_short, read_text, read_varint};
use osu_formats::error::{DecodeError, ErrorKind, Field};

fn chars(s: &str) -> Vec<char> {
    s.chars().collect()
}

fn pieces(items: &[&str]) -> Vec<Vec<char>> {
    items.iter().map(|s| chars(s)).collect()
}

#[test]
fn split_gives_one_more_piece_than_separators() {
    assert_eq!(split_chars(&chars(""), ','), pieces(&[""]));
    assert_eq!(split_chars(&chars("a"), ','), pieces(&["a"]));
    assert_eq!(split_chars(&chars("a,b"), ','), pieces(&["a", "b"]));
    assert_eq!(split_chars(&chars(",a,,b,"), ','), pieces(&["", "a", "", "b", ""]));
    for text in ["", ",", "1|2,3", "a,b,c,,", "é,ü"] {
        let expected: Vec<Vec<char>> = text.split(',').map(chars).collect();
        assert_eq!(split_chars(&chars(text), ','), expected);
    }
}

#[test]
fn trim_takes_white_space_off_both_ends() {
    for text in ["", " ", "a", " a b \t\r\n", "\u{a0}x\u{3000}", "\u{200b}x", "\u{2003} y"] {
        assert_eq!(trim_chars(&chars(text)), chars(text.trim()), "{:?}", text);
    }
}

#[test]
fn white_space_is_what_unicode_calls_white_space() {
    for code in 0..0x11_0000u32 {
        if let Some(c) = char::from_u32(code) {
            assert_eq!(is_space_char(c), c.is_whitespace(), "U+{:04X}", code);
        }
    }
}

#[test]
fn words_are_runs_without_white_space() {
    for text in ["", "  ", "one", " one  two\tthree ", "a\u{a0}b"] {
        let expected: Vec<Vec<char>> = text.split_whitespace().map(chars).collect();
        assert_eq!(split_words(&chars(text)), expected, "{:?}", text);
    }
}

#[test]
fn key_and_value_part_at_the_first_colon() {
    assert_eq!(split_key_value(&chars("a : b:c ")), Some((chars("a"), chars("b:c"))));
    assert_eq!(split_key_value(&chars(":")), Some((chars(""), chars(""))));
    assert_eq!(split_key_value(&chars("abc")), None);
}

#[test]
fn text_helpers() {
    assert_eq!(chars_of("héllo"), chars("héllo"));
    assert_eq!(string_of(&chars("héllo")), "héllo");
    assert_eq!(chars_of_all(&["a", "bc"]), pieces(&["a", "bc"]));
    assert_eq!(copy_range(&chars("hello"), 1, 3), chars("el"));
    assert!(same_chars(&chars("ab"), &chars("ab")));
    assert!(!same_chars(&chars("ab"), &chars("ac")));
    assert!(!same_chars(&chars("ab"), &chars("abc")));
    assert!(is_word(&chars("Mode"), "Mode"));
    assert!(!is_word(&chars("mode"), "Mode"));
    assert_eq!(find_char(&chars("a:b:c"), ':', 0), 1);
    assert_eq!(find_char(&chars("a:b:c"), ':', 2), 3);
    assert_eq!(find_char(&chars("a:b:c"), ':', 4), 5);
}

#[test]
fn unsigned_numbers_parse_as_the_standard_library_does() {
    let texts = [
        "", "+", "-", "0", "+0", "-0", "7", "007", "255", "256", "+255", "65535", "65536",
        "4294967295", "4294967296", "18446744073709551615", "18446744073709551616",
        "99999999999999999999999", "1_000", " 1", "1 ", "1.0", "0x10", "１２", "+-1", "++1",
    ];
    for text in texts {
        let c = chars(text);
        assert_eq!(parse_u8(&c), text.parse::<u8>().ok(), "{:?}", text);
        assert_eq!(parse_u16(&c), text.parse::<u16>().ok(), "{:?}", text);
        assert_eq!(parse_u32(&c), text.parse::<u32>().ok(), "{:?}", text);
        assert_eq!(parse_u64(&c), text.parse::<u64>().ok(), "{:?}", text);
        assert_eq!(parse_usize(&c), text.parse::<usize>().ok(), "{:?}", text);
    }
    assert_eq!(parse_unsigned(&chars("100"), 100), Some(100));
    assert_eq!(parse_unsigned(&chars("101"), 100), None);
    assert_eq!(parse_digits(&chars("ab12"), 2, 50), Some(12));
    assert_eq!(parse_digits(&chars("ab12"), 4, 50), None);
}

#[test]
fn signed_numbers_parse_as_the_standard_library_does() {
    let texts = [
        "", "+", "-", "0", "-0", "+0", "-1", "-12345", "32767", "32768", "-32768", "-32769",
        "9223372036854775807", "9223372036854775808", "-9223372036854775808",
        "-9223372036854775809", "--1", "-+1", "1-", "- 1",
    ];
    for text in texts {
        let c = chars(text);
        assert_eq!(parse_i16(&c), text.parse::<i16>().ok(), "{:?}", text);
        assert_eq!(parse_i64(&c), text.parse::<i64>().ok(), "{:?}", text);
    }
    assert_eq!(parse_signed(&chars("-5"), -5, 5), Some(-5));
    assert_eq!(parse_signed(&chars("-6"), -5, 5), None);
    assert_eq!(parse_signed(&chars("6"), -5, 5), None);
}

#[test]
fn real_literals_are_what_the_standard_library_parses() {
    let texts = [
        "", "0", "1", "-1", "+1", "3.14", "-3.14", "2.5E10", "2.5e-10", "2.5e+3", "5.", ".5",
        ".", "+.", "-", "+", "e5", "1e", "1e+", "1.e5", ".e5", ".5e5", "inf", "-inf", "+infinity",
        "Infinity", "INF", "NaN", "nan", "-nan", "infinit", "infinityy", "na", " 1", "1 ", "1,5",
        "1..5", "1.5.5", "0x10", "1e5.5", "1_0", "١", "1f32", "--1", "+-1", "1e--1", "٣.٥",
        "00012.5000", "1e400", "123456789012345678901234567890",
    ];
    for text in texts {
        let expected = text.parse::<f64>().is_ok();
        assert_eq!(is_real_text(&chars(text)), expected, "{:?}", text);
        assert_eq!(text.parse::<f32>().is_ok(), expected, "{:?}", text);
        assert_eq!(RealLiteral::parse(&chars(text)).is_some(), expected, "{:?}", text);
    }
    let literal = RealLiteral::parse(&chars("-2.5e3")).unwrap();
    assert_eq!(literal.text(), "-2.5e3");
    assert_eq!(literal.clone().text(), "-2.5e3");
    assert_eq!(literal.text().parse::<f64>().unwrap(), -2500.0);
    assert_eq!(RealLiteral::zero().text(), "0");
}

#[test]
fn decimal_writes_numbers_as_the_standard_library_does() {
    for n in [0u64, 1, 9, 10, 11, 99, 100, 255, 1000, 65535, u64::MAX] {
        assert_eq!(string_of(&decimal_of(n)), n.to_string());
    }
}

#[test]
fn integers_are_read_least_significant_byte_first() {
    let data = [0x01u8, 0x02, 0x03, 0x04, 0x05, 0x06, 0x07, 0x08, 0x09];
    assert_eq!(read_byte(&data, 8, Field::Mode), Ok((0x09, 9)));
    assert_eq!(read_short(&data, 1, Field::MaxCombo), Ok((0x0302, 3)));
    assert_eq!(read_int(&data, 1, Field::Mods), Ok((0x05040302, 5)));
    assert_eq!(read_long(&data, 1, Field::TimeStamp), Ok((0x0908070605040302, 9)));
    let cut = DecodeError { kind: ErrorKind::Truncated, field: Field::TimeStamp };
    assert_eq!(read_long(&data, 2, Field::TimeStamp), Err(cut));
    assert_eq!(read_long(&data, usize::MAX, Field::TimeStamp), Err(cut));
    assert_eq!(read_byte(&data, 9, Field::TimeStamp), Err(cut));
    assert_eq!(read_short(&data, 8, Field::TimeStamp), Err(cut));
    assert_eq!(read_int(&data, 6, Field::TimeStamp), Err(cut));
    assert_eq!(read_int(&[0xff; 4], 0, Field::Mods), Ok((u32::MAX, 4)));
    assert_eq!(read_long(&[0xff; 8], 0, Field::Mods), Ok((u64::MAX, 8)));
}

#[test]
fn lengths_are_read_in_base_128() {
    let field = Field::MapHash;
    let cut = DecodeError { kind: ErrorKind::Truncated, field };
    assert_eq!(read_varint(&[0x00], 0, field), Ok((Some(0), 1)));
    assert_eq!(read_varint(&[0x7f, 0xff], 0, field), Ok((Some(127), 1)));
    assert_eq!(read_varint(&[0x80, 0x01], 0, field), Ok((Some(128), 2)));
    assert_eq!(read_varint(&[0xe5, 0x8e, 0x26], 0, field), Ok((Some(624485), 3)));
    assert_eq!(read_varint(&[0x00, 0xac, 0x02, 0x09], 1, field), Ok((Some(300), 3)));
    assert_eq!(read_varint(&[0x80, 0x80], 0, field), Err(cut));
    assert_eq!(read_varint(&[], 0, field), Err(cut));
    let mut max = vec![0xffu8; 9];
    max.push(0x01);
    assert_eq!(read_varint(&max, 0, field), Ok((Some(u64::MAX), 10)));
    let mut over = vec![0xffu8; 9];
    over.push(0x02);
    assert_eq!(read_varint(&over, 0, field), Ok((None, 10)));
    let mut padded = vec![0x81u8];
    padded.extend_from_slice(&[0x80; 12]);
    padded.push(0x00);
    assert_eq!(read_varint(&padded, 0, field), Ok((Some(1), 14)));
    padded[13] = 0x01;
    assert_eq!(read_varint(&padded, 0, field), Ok((None, 14)));
}

#[test]
fn texts_are_marked_and_length_prefixed() {
    let field = Field::PlayerName;
    assert_eq!(read_text(&[0x00, 0x41], 0, field), Ok((String::new(), 1)));
    assert_eq!(read_text(&[0x01, 0x41], 0, field), Ok((String::new(), 1)));
    assert_eq!(read_text(&[0x0b, 0x00], 0, field), Ok((String::new(), 2)));
    assert_eq!(read_text(&[0x0b, 0x02, 0x68, 0x69, 0x21], 0, field), Ok(("hi".to_string(), 4)));
    assert_eq!(
        read_text(&[0x0b, 0x02, 0xc3, 0xa9], 0, field),
        Ok(("é".to_string(), 4))
    );
    assert_eq!(
        read_text(&[0x0b, 0x03, 0x68, 0x69], 0, field),
        Err(DecodeError { kind: ErrorKind::Truncated, field })
    );
    assert_eq!(
        read_text(&[0x0b, 0x01, 0xc3], 0, field),
        Err(DecodeError { kind: ErrorKind::InvalidEncoding, field })
    );
    assert_eq!(read_text(&[], 0, field), Err(DecodeError { kind: ErrorKind::Truncated, field }));
}

/// A small linear congruential generator, so that the runs repeat.
fn next_random(state: &mut u64) -> u64 {
    *state = state.wrapping_mul(6364136223846793005).wrapping_add(1442695040888963407);
    *state >> 33
}

fn random_text(state: &mut u64, alphabet: &[char], longest: u64) -> String {
    let len = next_random(state) % (longest + 1);
    (0..len).map(|_| alphabet[(next_random(state) % alphabet.len() as u64) as usize]).collect()
}

#[test]
fn text_functions_agree_with_the_standard_library_on_many_texts() {
    let alphabet = [' ', '\t', '\r', '\n', 'a', 'b', ',', '|', ':', 'é', '\u{3000}', '\u{85}'];
    let mut state = 1u64;
    for _ in 0..20000 {
        let text = random_text(&mut state, &alphabet, 9);
        let c = chars(&text);
        for sep in [',', '|', ':', '\n'] {
            let expected: Vec<Vec<char>> = text.split(sep).map(chars).collect();
            assert_eq!(split_chars(&c, sep), expected, "{:?}", text);
        }
        assert_eq!(trim_chars(&c), chars(text.trim()), "{:?}", text);
        let expected: Vec<Vec<char>> = text.split_whitespace().map(chars).collect();
        assert_eq!(split_words(&c), expected, "{:?}", text);
        let expected = text.split_once(':').map(|(k, v)| (chars(k.trim()), chars(v.trim())));
        assert_eq!(split_key_value(&c), expected, "{:?}", text);
    }
}

#[test]
fn number_functions_agree_with_the_standard_library_on_many_texts() {
    let alphabet = [
        '+', '-', '0', '1', '2', '5', '9', '.', 'e', 'E', 'i', 'n', 'f', 'a', 'N', 't', 'y', ' ',
    ];
    let mut state = 2u64;
    for _ in 0..200000 {
        let text = random_text(&mut state, &alphabet, 8);
        let c = chars(&text);
        assert_eq!(is_real_text(&c), text.parse::<f64>().is_ok(), "{:?}", text);
        assert_eq!(parse_u8(&c), text.parse::<u8>().ok(), "{:?}", text);
        assert_eq!(parse_i16(&c), text.parse::<i16>().ok(), "{:?}", text);
        assert_eq!(parse_i64(&c), text.parse::<i64>().ok(), "{:?}", text);
    }
    let digits = ['0', '1', '9', '7'];
    for _ in 0..20000 {
        let text = random_text(&mut state, &digits, 22);
        let c = chars(&text);
        assert_eq!(parse_u16(&c), text.parse::<u16>().ok(), "{:?}", text);
        assert_eq!(parse_u32(&c), text.parse::<u32>().ok(), "{:?}", text);
        assert_eq!(parse_u64(&c), text.parse::<u64>().ok(), "{:?}", text);
        let signed = format!("-{}", text);
        assert_eq!(parse_i64(&chars(&signed)), signed.parse::<i64>().ok(), "{:?}", signed);
    }
}

#[test]
fn lengths_agree_with_their_encoding_on_many_numbers() {
    let mut state = 3u64;
    for _ in 0..20000 {
        let shift = next_random(&mut state) % 64;
        let value = (next_random(&mut state) << 33 | next_random(&mut state)) >> shift;
        let mut encoded = Vec::new();
        let mut rest = value;
        while rest >= 0x80 {
            encoded.push((rest & 0x7f) as u8 | 0x80);
            rest >>= 7;
        }
        encoded.push(rest as u8);
        let end = encoded.len();
        encoded.push(0xff);
        assert_eq!(read_varint(&encoded, 0, Field::MapHash), Ok((Some(value), end)));
    }
}
