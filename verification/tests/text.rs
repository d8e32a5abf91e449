use synapse::text::{compare_text, parse_u64, str_is_blank, u64_to_decimal, IntParseError, TextOrder};

#[test]
fn parse_matches_std() {
    for s in ["0", "120", "+5", "007", "18446744073709551615", "18446744073709551616", "", "+", "-", "-1", " 1", "1 ", "1_0", "٣", "99999999999999999999x"] {
        let mine = parse_u64(s);
        let std = s.parse::<u64>();
        match (mine, std) {
            (Ok(a), Ok(b)) => assert_eq!(a, b, "{s}"),
            (Err(k), Err(e)) => {
                let expect = match e.kind() {
                    std::num::IntErrorKind::Empty => IntParseError::Empty,
                    std::num::IntErrorKind::InvalidDigit => IntParseError::InvalidDigit,
                    std::num::IntErrorKind::PosOverflow => IntParseError::PosOverflow,
                    other => panic!("unexpected {other:?}"),
                };
                assert_eq!(k, expect, "{s}");
            }
            (a, b) => panic!("{s}: {a:?} vs {b:?}"),
        }
    }
}

#[test]
fn decimal_round_trips() {
    for n in [0u64, 7, 10, 404, 65535, u64::MAX] {
        let s = u64_to_decimal(n);
        assert_eq!(s, n.to_string());
        assert_eq!(parse_u64(&s), Ok(n));
    }
}

#[test]
fn blankness_is_trim_emptiness() {
    for s in ["", " ", "\t\r\n", "\u{85}\u{a0}\u{2028}", "a", " a ", "\u{200b}"] {
        assert_eq!(str_is_blank(s), s.trim().is_empty(), "{s:?}");
    }
}

#[test]
fn order_is_str_order() {
    let words = ["", "a", "ab", "b", "fast", "gemini-pro", "é", "z", "Z", "aa"];
    for a in words {
        for b in words {
            let expect = match a.cmp(b) {
                std::cmp::Ordering::Less => TextOrder::Less,
                std::cmp::Ordering::Equal => TextOrder::Equal,
                std::cmp::Ordering::Greater => TextOrder::Greater,
            };
            assert_eq!(compare_text(a, b), expect, "{a} {b}");
        }
    }
}
