use stellar_k8s::text::{is_white_space, trim, utf8_bytes};

#[test]
fn trim_strips_unicode_white_space_like_std() {
    let samples = [
        "",
        "   ",
        "abc",
        "  abc  ",
        "\t\n a b \r\n",
        "\u{3000}\u{a0}x\u{2028}",
        "\u{85}inner  space\u{205f}",
        "\u{200b}zero width\u{200b}",
    ];
    for s in samples {
        assert_eq!(trim(s), s.trim(), "trim of {s:?}");
    }
}

#[test]
fn white_space_matches_std() {
    for code in 0u32..0x3100 {
        if let Some(c) = char::from_u32(code) {
            assert_eq!(is_white_space(c), c.is_whitespace(), "char {code:#x}");
        }
    }
}

#[test]
fn utf8_bytes_match_std() {
    for s in ["", "abc", "é", "€uro", "𝄞 clef", "mixed ß ∑ 😀 text", "\u{7f}\u{80}\u{7ff}\u{800}\u{ffff}\u{10000}\u{10ffff}"] {
        assert_eq!(utf8_bytes(s), s.as_bytes().to_vec(), "bytes of {s:?}");
    }
}
