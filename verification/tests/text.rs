use aria::sort::stable_order;
use aria::string_map::StringMap;
use aria::text::chars::to_lower;
use aria::text::chars::white;
use aria::text::find::bytes_of;
use aria::text::number::parse_i64;
use aria::text::number::parse_u64;
use aria::text::number::write_decimal;
use aria::text::order::rank_text;
use aria::text::order::Rank;

fn chars(s: &str) -> Vec<char> {
    s.chars().collect()
}

#[test]
fn white_space_is_unicode_white_space() {
    for n in 0..=0x10ffffu32 {
        if let Some(c) = char::from_u32(n) {
            assert_eq!(white(c), c.is_whitespace(), "U+{n:04X}");
        }
    }
}

#[test]
fn texts_match_std() {
    for s in ["", "aB\u{e9}\u{1f600}Z", "x"] {
        assert_eq!(bytes_of(&chars(s)), s.len() as u128);
        let low: String = to_lower(&chars(s)).iter().collect();
        assert_eq!(low, s.to_ascii_lowercase());
    }
}

#[test]
fn numbers_match_std() {
    for s in ["", "0", "+7", "-7", "-", "+", "007", "1x", " 1", "9223372036854775807",
        "9223372036854775808", "-9223372036854775808", "18446744073709551615",
        "18446744073709551616"] {
        assert_eq!(parse_i64(&chars(s)), s.parse::<i64>().ok(), "{s}");
        assert_eq!(parse_u64(&chars(s)), s.parse::<u64>().ok(), "{s}");
    }
    for n in [0, 7, 10, 12345, u64::MAX] {
        assert_eq!(write_decimal(n), n.to_string());
    }
}

#[test]
fn order_matches_std() {
    let all = ["", "a", "ab", "b", "Z", "\u{e9}", "\u{ffff}", "\u{1f600}"];
    for a in all {
        for b in all {
            let want = if a < b {
                Rank::Before
            } else if a == b {
                Rank::Same
            } else {
                Rank::After
            };
            assert!(rank_text(a, b) == want, "{a} {b}");
        }
    }
}

#[test]
fn map_keeps_keys_in_order() {
    let mut m: StringMap<u8> = StringMap::new();
    m.insert("b".into(), 1);
    m.insert("a".into(), 2);
    m.insert("b".into(), 3);
    assert_eq!(m.len(), 2);
    assert_eq!(m.entry(0), ("a", &2));
    assert_eq!(m.entry(1), ("b", &3));
    assert_eq!(m.get("b"), Some(&3));
    assert_eq!(m.remove("a"), Some(2));
    assert_eq!(m.remove("a"), None);
    assert_eq!(m.get("a"), None);
    assert_eq!(m.clone().len(), 1);
}

#[test]
fn sort_is_stable() {
    // Falling second numbers, then rising first ones.
    let v: Vec<(u64, u32)> = vec![(3, 1), (1, 1), (2, 9), (1, 1), (5, 0)];
    assert_eq!(stable_order(&v), vec![2, 1, 3, 0, 4]);
}
