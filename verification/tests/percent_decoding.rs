use yomitan_api::percent::{decode_component, has_complete_escapes};

#[test]
fn escapes_become_bytes() {
    assert_eq!(decode_component("hello%20world"), "hello world");
    assert_eq!(decode_component("%41%42%43"), "ABC");
    assert_eq!(decode_component("100%25"), "100%");
}

#[test]
fn hex_digits_in_either_case() {
    assert_eq!(decode_component("%e7%8a%ac"), "犬");
    assert_eq!(decode_component("%E7%8A%AC"), "犬");
    assert_eq!(decode_component("%e7%8A%aC"), "犬");
}

#[test]
fn plain_text_is_kept() {
    assert_eq!(decode_component(""), "");
    assert_eq!(decode_component("lookupWord"), "lookupWord");
    assert_eq!(decode_component("犬"), "犬");
}

#[test]
fn plus_is_not_a_space() {
    assert_eq!(decode_component("a+b"), "a+b");
    assert_eq!(decode_component("a%2Bb"), "a+b");
}

#[test]
fn percent_without_two_digits_is_malformed() {
    for malformed in ["%", "%4", "%zz", "%4z", "%z4", "50%", "%%41", "%4%41", "%%", "a%", "%41%4", "%G0"] {
        assert_eq!(decode_component(malformed), "", "{malformed}");
        assert!(!has_complete_escapes(malformed), "{malformed}");
    }
}

#[test]
fn complete_escapes_are_recognised() {
    for complete in ["", "plain", "%41", "a%20b", "%e7%8a%ac", "%25", "%2541", "犬%20", "%ff", "%00"] {
        assert!(has_complete_escapes(complete), "{complete}");
    }
}

#[test]
fn escaped_percent_is_a_percent() {
    assert_eq!(decode_component("50%25"), "50%");
    assert_eq!(decode_component("%2541"), "%41");
    assert_eq!(decode_component("%25%25"), "%%");
}

#[test]
fn bytes_that_are_not_utf8_give_the_empty_string() {
    assert_eq!(decode_component("%ff"), "");
    assert_eq!(decode_component("abc%80def"), "");
    assert_eq!(decode_component("%E7%8A"), "");
    assert_eq!(decode_component("%C0%80"), "");
}

#[test]
fn escaped_zero_byte_is_text() {
    assert_eq!(decode_component("a%00b"), "a\0b");
}

#[test]
fn decoding_undoes_the_standard_encoding() {
    let originals = [
        "",
        "plain",
        "hello world",
        "a&b=c?d#e/f",
        "100% sure",
        "%41 is not A here",
        "犬",
        "いぬ と ねこ",
        "emoji 🐕 and tab\tand newline\n",
        "-_.~ stay as they are",
        "\u{0}\u{7f}\u{80}\u{7ff}\u{800}\u{ffff}\u{10000}\u{10ffff}",
    ];
    for original in originals {
        let encoded = urlencoding::encode(original);
        assert_eq!(decode_component(&encoded), original, "through {encoded}");
    }
}

#[test]
fn decoding_undoes_partial_encodings() {
    // The same text with more or less of it escaped.
    for encoded in ["a b", "a%20b", "%61%20%62", "%61 b", "a %62"] {
        assert_eq!(decode_component(encoded), "a b");
    }
    for encoded in ["犬=いぬ", "%E7%8A%AC=いぬ", "犬%3Dいぬ", "犬=%E3%81%84%E3%81%AC"] {
        assert_eq!(decode_component(encoded), "犬=いぬ");
    }
}
