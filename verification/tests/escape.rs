use caf_format::escape::{BB, BS, FF, NN, QU, RR, TT, UU};
use caf_format::{format_escaped_str_contents, CharEscape};

fn escape(value: &str) -> Vec<u8> {
    let mut out = Vec::new();
    format_escaped_str_contents(&mut out, value);
    out
}

fn written(escape: CharEscape) -> Vec<u8> {
    let mut out = Vec::new();
    escape.write_to(&mut out);
    out
}

// What the table says of one byte, written out independently of the library.
fn expected_for(byte: u8) -> Vec<u8> {
    match byte {
        0x08 => b"\\b".to_vec(),
        0x09 => b"\\t".to_vec(),
        0x0A => b"\\n".to_vec(),
        0x0C => b"\\f".to_vec(),
        0x0D => b"\\r".to_vec(),
        0x22 => b"\\\"".to_vec(),
        0x5C => b"\\\\".to_vec(),
        0x00..=0x1F => format!("\\u{{{:02x}}}", byte).into_bytes(),
        _ => vec![byte],
    }
}

#[test]
fn tab_is_escaped_with_its_letter() {
    assert_eq!(escape("\t"), b"\\t".to_vec());
}

#[test]
fn control_character_is_escaped_with_braced_hex() {
    assert_eq!(escape("\u{01}"), b"\\u{01}".to_vec());
    assert_eq!(escape("\u{00}"), b"\\u{00}".to_vec());
    assert_eq!(escape("\u{0b}"), b"\\u{0b}".to_vec());
    assert_eq!(escape("\u{1f}"), b"\\u{1f}".to_vec());
}

#[test]
fn named_escapes_follow_the_table() {
    assert_eq!(escape("\u{08}"), b"\\b".to_vec());
    assert_eq!(escape("\n"), b"\\n".to_vec());
    assert_eq!(escape("\u{0c}"), b"\\f".to_vec());
    assert_eq!(escape("\r"), b"\\r".to_vec());
    assert_eq!(escape("\""), b"\\\"".to_vec());
    assert_eq!(escape("\\"), b"\\\\".to_vec());
}

#[test]
fn every_single_byte_string_follows_the_table() {
    for byte in 0u8..0x80 {
        let text = String::from_utf8(vec![byte]).unwrap();
        assert_eq!(escape(&text), expected_for(byte), "byte {:#04x}", byte);
    }
}

#[test]
fn multi_byte_characters_pass_through() {
    assert_eq!(escape("héllo"), "héllo".as_bytes().to_vec());
    assert_eq!(escape("日本語 ✓"), "日本語 ✓".as_bytes().to_vec());
}

#[test]
fn delete_and_space_are_not_escaped() {
    assert_eq!(escape(" "), b" ".to_vec());
    assert_eq!(escape("\u{7f}"), vec![0x7f]);
    assert_eq!(escape("/"), b"/".to_vec());
}

#[test]
fn runs_between_escapes_are_kept() {
    assert_eq!(escape("a\tb\"c"), b"a\\tb\\\"c".to_vec());
    assert_eq!(escape("\n\n"), b"\\n\\n".to_vec());
    assert_eq!(escape("tail\\"), b"tail\\\\".to_vec());
    assert_eq!(escape("\\head"), b"\\\\head".to_vec());
    assert_eq!(escape("é\u{02}é"), "é\\u{02}é".as_bytes().to_vec());
}

#[test]
fn empty_string_writes_nothing() {
    assert_eq!(escape(""), Vec::<u8>::new());
}

#[test]
fn escaping_appends_to_the_writer() {
    let mut out = b"x=".to_vec();
    format_escaped_str_contents(&mut out, "a\"b");
    assert_eq!(out, b"x=a\\\"b".to_vec());
}

#[test]
fn table_letters_name_their_escapes() {
    assert_eq!(CharEscape::from_escape_table(BB, 0x08), CharEscape::Backspace);
    assert_eq!(CharEscape::from_escape_table(TT, 0x09), CharEscape::Tab);
    assert_eq!(CharEscape::from_escape_table(NN, 0x0A), CharEscape::LineFeed);
    assert_eq!(CharEscape::from_escape_table(FF, 0x0C), CharEscape::FormFeed);
    assert_eq!(CharEscape::from_escape_table(RR, 0x0D), CharEscape::CarriageReturn);
    assert_eq!(CharEscape::from_escape_table(QU, 0x22), CharEscape::Quote);
    assert_eq!(CharEscape::from_escape_table(BS, 0x5C), CharEscape::ReverseSolidus);
    assert_eq!(CharEscape::from_escape_table(UU, 0x07), CharEscape::AsciiControl(0x07));
}

#[test]
fn char_escapes_write_their_sequences() {
    assert_eq!(written(CharEscape::Quote), b"\\\"".to_vec());
    assert_eq!(written(CharEscape::ReverseSolidus), b"\\\\".to_vec());
    assert_eq!(written(CharEscape::Backspace), b"\\b".to_vec());
    assert_eq!(written(CharEscape::FormFeed), b"\\f".to_vec());
    assert_eq!(written(CharEscape::LineFeed), b"\\n".to_vec());
    assert_eq!(written(CharEscape::CarriageReturn), b"\\r".to_vec());
    assert_eq!(written(CharEscape::Tab), b"\\t".to_vec());
    assert_eq!(written(CharEscape::AsciiControl(0x00)), b"\\u{00}".to_vec());
    assert_eq!(written(CharEscape::AsciiControl(0x1e)), b"\\u{1e}".to_vec());
    assert_eq!(written(CharEscape::AsciiControl(0xaf)), b"\\u{af}".to_vec());
}
