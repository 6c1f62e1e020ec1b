use dweb_cloud::store::text_le_exec;
use dweb_cloud::text::{char_is_white_space, i64_to_decimal, trim, u64_to_decimal};

#[test]
fn decimal_numerals_match_display() {
    for v in [0i64, 7, 10, 99, 100, -1, -10, 1234567890123, i64::MIN, i64::MAX] {
        assert_eq!(i64_to_decimal(v), v.to_string());
    }
    for v in [0u64, 9, 10, u64::MAX] {
        assert_eq!(u64_to_decimal(v), v.to_string());
    }
}

#[test]
fn trim_matches_str_trim() {
    for s in ["", "   ", " a ", "\u{00a0}x y\u{3000}", "\u{200b}z\u{200b}", "\tq\r\n", "a b"] {
        assert_eq!(trim(s), s.trim());
    }
    for c in ['\u{9}', ' ', '\u{85}', '\u{a0}', '\u{1680}', '\u{2000}', '\u{200a}', '\u{2028}', '\u{2029}', '\u{202f}', '\u{205f}', '\u{3000}', 'a', '\u{200b}', '\u{180e}'] {
        assert_eq!(char_is_white_space(c), c.is_whitespace());
    }
}

#[test]
fn text_order_matches_string_order() {
    let words = ["", "a", "B", "b", "ab", "abc", "é", "z", "\u{10000}", "\u{ffff}"];
    for a in words {
        for b in words {
            assert_eq!(text_le_exec(a, b), a <= b, "{a:?} {b:?}");
        }
    }
}
