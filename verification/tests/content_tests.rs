use bms_downloader::content::{
    choose_decoding, detect_and_decode_content, expected, is_valid_content, Decoded,
};

#[test]
fn ascii_text_is_valid() {
    assert!(is_valid_content("<html><body>hello</body></html>"));
}

#[test]
fn validity_needs_more_than_seven_tenths() {
    // seven expected characters in ten bytes are not enough
    assert!(!is_valid_content("abcdefg\u{2603}"));
    assert!(!is_valid_content("abcd\u{e9}\u{e9}\u{e9}"));
    // eight expected characters in eleven bytes are
    assert!(is_valid_content("abcdefgh\u{2603}"));
    assert!(!is_valid_content(""));
}

#[test]
fn validity_counts_characters_against_bytes() {
    // kana are expected, but each takes three bytes
    assert!(!is_valid_content("\u{3042}\u{3044}\u{3046}"));
    assert!(is_valid_content("abcdefghijklmnopqrst\u{3053}"));
}

#[test]
fn expected_characters() {
    for c in ['a', '\u{0}', '\u{7f}', '\u{3040}', '\u{309f}', '\u{30a0}', '\u{30ff}', '\u{4e00}', '\u{9faf}'] {
        assert!(expected(c));
    }
    for c in ['\u{80}', '\u{e9}', '\u{303f}', '\u{3100}', '\u{4dff}', '\u{9fb0}', '\u{ff11}'] {
        assert!(!expected(c));
    }
}

fn decoded(text: &str, had_errors: bool) -> Decoded {
    Decoded { text: text.to_string(), had_errors }
}

#[test]
fn first_clean_and_valid_decoding_is_chosen() {
    let attempts = vec![
        decoded("broken \u{fffd}", true),
        decoded("\u{3042}\u{3044}\u{3046}", false),
        decoded("plain text", false),
        decoded("other text", false),
    ];
    assert_eq!(choose_decoding(attempts, "fallback".to_string()), "plain text");
}

#[test]
fn fallback_is_chosen_where_no_decoding_will_do() {
    let attempts = vec![decoded("valid but broken", true), decoded("\u{3042}", false)];
    assert_eq!(choose_decoding(attempts, "fallback".to_string()), "fallback");
    assert_eq!(choose_decoding(Vec::new(), "fallback".to_string()), "fallback");
}

#[test]
fn utf8_page_is_decoded() {
    let page = "<html><body>caf\u{e9} and more plain text</body></html>";
    assert_eq!(detect_and_decode_content(page.as_bytes()), page);
}

#[test]
fn utf8_byte_order_mark_is_dropped() {
    let mut bytes = vec![0xEF, 0xBB, 0xBF];
    bytes.extend_from_slice(b"plain page");
    assert_eq!(detect_and_decode_content(&bytes), "plain page");
}

#[test]
fn shift_jis_page_is_decoded() {
    let mut bytes = b"<td>title of the work</td>".to_vec();
    bytes.extend_from_slice(&[0x82, 0xB1]);
    assert_eq!(detect_and_decode_content(&bytes), "<td>title of the work</td>\u{3053}");
}

#[test]
fn euc_jp_page_is_decoded() {
    let mut bytes = b"<td>title of the work</td>".to_vec();
    bytes.extend_from_slice(&[0xEB, 0xA1]);
    assert!(std::str::from_utf8(&bytes).is_err());
    assert!(encoding_rs::SHIFT_JIS.decode(&bytes).2);
    let (expected_text, _, had_errors) = encoding_rs::EUC_JP.decode(&bytes);
    assert!(!had_errors);
    assert_eq!(detect_and_decode_content(&bytes), expected_text);
    assert_eq!(expected_text.chars().count(), 27);
}

#[test]
fn first_decoding_without_errors_wins() {
    // these bytes are EUC-JP, but Shift_JIS reads them without error
    let mut bytes = b"<td>title of the work</td>".to_vec();
    bytes.extend_from_slice(&[0xA4, 0xB3]);
    assert_eq!(
        detect_and_decode_content(&bytes),
        "<td>title of the work</td>\u{ff64}\u{ff73}"
    );
}

#[test]
fn undecodable_page_is_read_as_utf8_with_replacements() {
    let bytes = [0xFF, 0xFF, 0xFF, 0xFF];
    assert_eq!(detect_and_decode_content(&bytes), "\u{fffd}\u{fffd}\u{fffd}\u{fffd}");
    assert_eq!(detect_and_decode_content(&[]), "");
}
