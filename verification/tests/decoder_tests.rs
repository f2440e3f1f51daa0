//! Tests for the streaming UTF-8 decoder: split code points, invalid
//! bytes, chunking insensitivity, and the boundary finder.

use maestro_core::utf8_stream::Utf8Decoder;

#[test]
fn test_decode_plain_ascii() {
    let mut d = Utf8Decoder::new();
    assert_eq!(d.decode(b"hello"), "hello");
    assert_eq!(d.decode(b" world"), " world");
}

#[test]
fn test_decode_split_emoji_across_chunks() {
    // a four-byte scalar split in the middle of its encoding
    let mut d = Utf8Decoder::new();
    let bytes = "🎉X".as_bytes();
    let first = d.decode(&bytes[..2]);
    let second = d.decode(&bytes[2..]);
    assert_eq!(first, "");
    assert_eq!(second, "🎉X");
}

#[test]
fn test_decode_split_check_mark() {
    // the three-byte check mark arrives as [0xE2, 0x9C] then [0x85, 'X']
    let mut d = Utf8Decoder::new();
    let a = d.decode(&[0xE2, 0x9C]);
    let b = d.decode(&[0x85, b'X']);
    let mut combined = a;
    combined.push_str(&b);
    assert_eq!(combined, "\u{2705}X");
}

#[test]
fn test_decode_invalid_byte_replaced() {
    let mut d = Utf8Decoder::new();
    assert_eq!(d.decode(&[b'a', 0xFF, b'b']), "a\u{FFFD}b");
}

#[test]
fn test_decode_overlong_and_surrogate_rejected() {
    // 0xC0 0x80 is an overlong encoding of NUL: two replacements
    let mut d = Utf8Decoder::new();
    assert_eq!(d.decode(&[0xC0, 0x80]), "\u{FFFD}\u{FFFD}");
    // 0xED 0xA0 0x80 encodes a surrogate: three replacements
    let mut d = Utf8Decoder::new();
    assert_eq!(d.decode(&[0xED, 0xA0, 0x80]), "\u{FFFD}\u{FFFD}\u{FFFD}");
}

#[test]
fn test_decode_any_chunking_gives_same_text() {
    // byte-at-a-time equals all-at-once for mixed valid and invalid input
    let mut reference = Utf8Decoder::new();
    let input: Vec<u8> = {
        let mut v = Vec::new();
        v.extend_from_slice("héllo ✅ ".as_bytes());
        v.push(0xF0);
        v.push(0x9F);
        v.extend_from_slice("🎉 end".as_bytes());
        v
    };
    let whole = reference.decode(&input);
    let mut trickle = Utf8Decoder::new();
    let mut collected = String::new();
    for b in &input {
        collected.push_str(&trickle.decode(&[*b]));
    }
    assert_eq!(collected, whole);
}

#[test]
fn test_decoder_buffer_empty_after_complete_input() {
    let mut d = Utf8Decoder::new();
    let _ = d.decode("héllo 🎉".as_bytes());
    // a following chunk is not polluted by leftovers
    assert_eq!(d.decode(b"next"), "next");
}

#[test]
fn test_find_valid_boundary() {
    // a trailing incomplete scalar is kept back
    assert_eq!(Utf8Decoder::find_valid_boundary(&[b'a', b'b', 0xE2, 0x9C]), 2);
    // complete input decodes entirely
    assert_eq!(Utf8Decoder::find_valid_boundary("abc".as_bytes()), 3);
    // a sequence that can never complete is not kept back
    assert_eq!(Utf8Decoder::find_valid_boundary(&[b'a', 0xFF]), 2);
}
