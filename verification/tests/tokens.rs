//! Single tokens: keys, values and the integers that values write.

use bmfont_glyphs::{char_is_whitespace, extract_numeric_value, Field};

fn decoded(input: &str) -> Option<(String, i32)> {
    extract_numeric_value(input)
}

fn pair(key: &str, value: i32) -> Option<(String, i32)> {
    Some((key.to_string(), value))
}

#[test]
fn key_and_value_are_split_at_the_assignment() {
    assert_eq!(pair("x", 5), decoded("x=5"));
    assert_eq!(pair("xadvance", 30), decoded("xadvance=30"));
    assert_eq!(pair("anything", 12), decoded("anything=12"));
}

#[test]
fn key_is_not_trimmed_and_may_be_empty() {
    assert_eq!(pair("", 5), decoded("=5"));
    assert_eq!(pair(" x", 5), decoded(" x=5"));
    assert_eq!(pair("X", 5), decoded("X=5"));
}

#[test]
fn token_without_assignment_decodes_to_nothing() {
    assert_eq!(None, decoded(""));
    assert_eq!(None, decoded("x"));
    assert_eq!(None, decoded("char"));
    assert_eq!(None, decoded("12"));
}

#[test]
fn token_with_several_assignments_decodes_to_nothing() {
    assert_eq!(None, decoded("x==5"));
    assert_eq!(None, decoded("x=5=6"));
    assert_eq!(None, decoded("=x=5"));
    assert_eq!(None, decoded("x=5="));
    assert_eq!(None, decoded("=="));
}

#[test]
fn value_that_is_no_integer_decodes_to_nothing() {
    assert_eq!(None, decoded("x="));
    assert_eq!(None, decoded("x=abc"));
    assert_eq!(None, decoded("x=3a2"));
    assert_eq!(None, decoded("x=1.5"));
    assert_eq!(None, decoded("x=0x10"));
    assert_eq!(None, decoded("x=5 "));
    assert_eq!(None, decoded("x= 5"));
    assert_eq!(None, decoded("x=\"5\""));
    assert_eq!(None, decoded("x=-"));
    assert_eq!(None, decoded("x=+"));
    assert_eq!(None, decoded("x=--5"));
    assert_eq!(None, decoded("x=+-5"));
    assert_eq!(None, decoded("x=5-"));
    assert_eq!(None, decoded("x=\u{0665}"));
    assert_eq!(None, decoded("x=\u{ff15}"));
}

#[test]
fn signs_are_read() {
    assert_eq!(pair("xoffset", -3), decoded("xoffset=-3"));
    assert_eq!(pair("xoffset", 3), decoded("xoffset=+3"));
    assert_eq!(pair("xoffset", 0), decoded("xoffset=-0"));
    assert_eq!(pair("xoffset", 0), decoded("xoffset=+0"));
}

#[test]
fn leading_zeros_are_read() {
    assert_eq!(pair("x", 7), decoded("x=007"));
    assert_eq!(pair("x", 12), decoded("x=000000000000000000000000000012"));
    assert_eq!(pair("x", -12), decoded("x=-000000000000000000000000000012"));
    assert_eq!(pair("x", 0), decoded("x=0000000000000000000000000000000"));
}

#[test]
fn values_at_the_ends_of_the_range_are_read() {
    assert_eq!(pair("x", 2147483647), decoded("x=2147483647"));
    assert_eq!(pair("x", 2147483647), decoded("x=+2147483647"));
    assert_eq!(pair("x", -2147483648), decoded("x=-2147483648"));
    assert_eq!(pair("x", -2147483647), decoded("x=-2147483647"));
}

#[test]
fn values_beyond_the_range_decode_to_nothing() {
    assert_eq!(None, decoded("x=2147483648"));
    assert_eq!(None, decoded("x=-2147483649"));
    assert_eq!(None, decoded("x=21474836470"));
    assert_eq!(None, decoded("x=99999999999999999999999999999"));
    assert_eq!(None, decoded("x=-99999999999999999999999999999"));
}

#[test]
fn integers_are_read_as_the_standard_library_reads_them() {
    let samples = [
        "", "0", "1", "9", "10", "-1", "+1", "-", "+", "--1", "++1", "+-1", "-+1", "00", "-00",
        "2147483646", "2147483647", "2147483648", "2147483649", "-2147483647", "-2147483648",
        "-2147483649", "4294967295", "4294967296", "9223372036854775807", "9223372036854775808",
        "18446744073709551615", "18446744073709551616", "0000000002147483647",
        "0000000002147483648", "-0000000002147483648", "-0000000002147483649", "1a", "a1", "1 ",
        " 1", "1_000", "1e3", "0x1", "0b1", "१", "٣", "１", "5\u{0}", "\u{0}5", "1-", "1+", "+0",
        "-0", "214748364", "2147483650", "3000000000", "-3000000000",
    ];
    for sample in samples {
        let expected = sample.parse::<i32>().ok().map(|value| ("key".to_string(), value));
        assert_eq!(expected, decoded(&format!("key={}", sample)), "value {:?}", sample);
    }
}

#[test]
fn every_small_integer_is_read_back_from_its_decimal_form() {
    for value in -3000..=3000 {
        assert_eq!(pair("v", value), decoded(&format!("v={}", value)));
    }
    for shift in 0..31 {
        let value: i32 = 1 << shift;
        assert_eq!(pair("v", value), decoded(&format!("v={}", value)));
        assert_eq!(pair("v", -value), decoded(&format!("v={}", -value)));
        assert_eq!(pair("v", value - 1), decoded(&format!("v={}", value - 1)));
    }
}

#[test]
fn whitespace_is_the_unicode_white_space_property() {
    let mut count = 0;
    for code in 0..=0x10FFFF_u32 {
        if let Some(c) = char::from_u32(code) {
            assert_eq!(c.is_whitespace(), char_is_whitespace(c), "U+{:04X}", code);
            if char_is_whitespace(c) {
                count += 1;
            }
        }
    }
    assert_eq!(25, count);
}

#[test]
fn named_whitespace_characters_are_recognised() {
    for c in [' ', '\t', '\n', '\r', '\u{0B}', '\u{0C}', '\u{85}', '\u{A0}', '\u{3000}'] {
        assert!(char_is_whitespace(c), "{:?}", c);
    }
    for c in ['a', '=', '0', '-', '\u{0}', '\u{8}', '\u{1F}', '\u{200B}', '\u{180E}', '\u{FEFF}'] {
        assert!(!char_is_whitespace(c), "{:?}", c);
    }
}

#[test]
fn each_key_names_its_field() {
    assert_eq!(Some(Field::Id), Field::from_key("id"));
    assert_eq!(Some(Field::X), Field::from_key("x"));
    assert_eq!(Some(Field::Y), Field::from_key("y"));
    assert_eq!(Some(Field::Width), Field::from_key("width"));
    assert_eq!(Some(Field::Height), Field::from_key("height"));
    assert_eq!(Some(Field::XOffset), Field::from_key("xoffset"));
    assert_eq!(Some(Field::YOffset), Field::from_key("yoffset"));
    assert_eq!(Some(Field::XAdvance), Field::from_key("xadvance"));
    assert_eq!(Some(Field::Page), Field::from_key("page"));
    assert_eq!(Some(Field::Chnl), Field::from_key("chnl"));
}

#[test]
fn other_keys_name_no_field() {
    for key in [
        "", "ID", "Id", "X", " x", "x ", "xx", "widt", "widths", "Width", "xOffset", "x_offset",
        "xoffse", "yofset", "xadvanc", "pages", "channel", "chnl0", "letter", "kerning",
    ] {
        assert_eq!(None, Field::from_key(key), "key {:?}", key);
    }
}
