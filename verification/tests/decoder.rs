use fexpr_lang::chars::{decode, Chars};
use fexpr_lang::error::Error;

fn decoded_text(bytes: &[u8]) -> (String, Option<Error>) {
    let (chars, failure) = decode(bytes);
    (chars.into_iter().collect(), failure)
}

#[test]
fn decodes_ascii() {
    let bytes = [b'a', b'b'];
    let mut chars = Chars::new(&bytes);
    assert!(matches!(chars.next(), Some(Ok('a'))));
    assert!(matches!(chars.next(), Some(Ok('b'))));
    assert!(chars.next().is_none());
    assert!(chars.next().is_none());
}

#[test]
fn reports_a_stray_continuation_byte() {
    let bytes = [0x80u8, b'a'];
    let mut chars = Chars::new(&bytes);
    assert!(matches!(chars.next(), Some(Err(Error::Utf8([0x80, 0, 0, 0])))));
    assert!(chars.next().is_none());
}

#[test]
fn agrees_with_std_on_valid_text() {
    for text in ["", "plain", "é", "€uro", "𝄞 clef", "a\u{7f}\u{80}\u{7ff}\u{800}\u{ffff}\u{10000}\u{10ffff}"] {
        let (chars, failure) = decoded_text(text.as_bytes());
        assert_eq!(chars, text);
        assert!(failure.is_none());
    }
}

#[test]
fn decodes_each_width() {
    let (chars, failure) = decode(&[0x24, 0xc2, 0xa2, 0xe2, 0x82, 0xac, 0xf0, 0x9f, 0x98, 0x80]);
    assert_eq!(chars, vec!['$', '¢', '€', '😀']);
    assert!(failure.is_none());
}

#[test]
fn failure_holds_the_partial_sequence() {
    let (chars, failure) = decoded_text(&[b'o', b'k', 0xe2, 0x82, b'x', b'y']);
    assert_eq!(chars, "ok");
    assert!(matches!(failure, Some(Error::Utf8([0xe2, 0x82, b'x', 0]))));

    let (chars, failure) = decoded_text(&[0xf0, 0x9f, 0x98, 0x41]);
    assert_eq!(chars, "");
    assert!(matches!(failure, Some(Error::Utf8([0xf0, 0x9f, 0x98, 0x41]))));

    let (_, failure) = decoded_text(&[0xc2, 0x20]);
    assert!(matches!(failure, Some(Error::Utf8([0xc2, 0x20, 0, 0]))));
}

#[test]
fn rejects_a_leading_byte_of_no_class() {
    let (chars, failure) = decoded_text(&[b'a', 0xf8, b'b']);
    assert_eq!(chars, "a");
    assert!(matches!(failure, Some(Error::Utf8([0xf8, 0, 0, 0]))));
}

#[test]
fn rejects_surrogates_and_numbers_beyond_unicode() {
    let (chars, failure) = decoded_text(&[0xed, 0xa0, 0x80]);
    assert_eq!(chars, "");
    assert!(matches!(failure, Some(Error::Utf8([0xed, 0xa0, 0x80, 0]))));

    let (_, failure) = decoded_text(&[0xf4, 0x90, 0x80, 0x80]);
    assert!(matches!(failure, Some(Error::Utf8([0xf4, 0x90, 0x80, 0x80]))));
}

#[test]
fn accepts_an_overlong_encoding() {
    let (chars, failure) = decoded_text(&[0xc0, 0xaf]);
    assert_eq!(chars, "/");
    assert!(failure.is_none());
}

#[test]
fn a_sequence_cut_off_by_the_end_ends_the_stream() {
    let (chars, failure) = decoded_text(&[b'a', 0xe2, 0x82]);
    assert_eq!(chars, "a");
    assert!(failure.is_none());
}

#[test]
fn the_stream_ends_after_a_failure() {
    let bytes = [0xff, b'a', b'b'];
    let mut chars = Chars::new(&bytes);
    assert!(matches!(chars.next(), Some(Err(Error::Utf8([0xff, 0, 0, 0])))));
    assert!(chars.next().is_none());
    assert!(chars.next().is_none());
}
