use osu_directer::text::{joined, is_white_space_char, trim};

#[test]
fn trim_removes_outer_white_space() {
    assert_eq!(trim("  \t https://osu.ppy.sh/beatmapsets/1 \r\n"), "https://osu.ppy.sh/beatmapsets/1");
}

#[test]
fn trim_keeps_inner_white_space() {
    assert_eq!(trim(" a b "), "a b");
}

#[test]
fn trim_of_blank_is_empty() {
    assert_eq!(trim(" \u{3000}\u{a0} "), "");
    assert_eq!(trim(""), "");
}

#[test]
fn trim_agrees_with_std() {
    for s in ["\u{2028}x\u{85}", "\u{200b}x", "\u{1680}y\u{205f}", "plain", "\u{feff}z"] {
        assert_eq!(trim(s), s.trim());
    }
}

#[test]
fn white_space_agrees_with_std() {
    for u in 0u32..0x3100 {
        if let Some(c) = char::from_u32(u) {
            assert_eq!(is_white_space_char(c), c.is_whitespace(), "{:x}", u);
        }
    }
}

#[test]
fn trim_is_idempotent() {
    let once = trim(" \u{2003}a\u{2003} ");
    assert_eq!(trim(once), once);
}

#[test]
fn joined_joins() {
    assert_eq!(joined("osu", "!"), "osu!");
}
