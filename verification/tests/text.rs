use smart_archive_rar::text::{
    characters, decimal_text, is_before, is_text, parse_u64, trim, white_space,
};

#[test]
fn white_space_is_what_std_says() {
    for n in 0..=0x10_ffffu32 {
        if let Some(c) = char::from_u32(n) {
            assert_eq!(white_space(c), c.is_whitespace(), "{n:x}");
        }
    }
}

#[test]
fn trimming_is_what_std_does() {
    let ends = ["", " ", "\t\n", "\u{2003}", "\u{85}x", "y\u{a0} ", "\u{200b}"];
    for front in ends {
        for middle in ["", "a", "a b", "\u{1f600}"] {
            for back in ends {
                let s = format!("{front}{middle}{back}");
                assert_eq!(trim(&s), s.trim());
            }
        }
    }
}

#[test]
fn numerals_read_as_std_reads_them() {
    let texts = [
        "", "0", "7", "+7", "+", "-7", "007", "1_0", " 1", "1 ", "\u{ff11}", "a", "9a",
        "18446744073709551615", "18446744073709551616", "18446744073709551620",
        "+18446744073709551615", "99999999999999999999", "28446744073709551615",
    ];
    for s in texts {
        let cs = characters(s);
        assert_eq!(parse_u64(&cs, cs.len()), s.parse::<u64>().ok(), "{s:?}");
    }
}

#[test]
fn only_the_characters_before_the_end_are_read() {
    assert_eq!(parse_u64(&characters("128k"), 3), Some(128));
    assert_eq!(parse_u64(&characters("128k"), 1), Some(1));
    assert_eq!(parse_u64(&characters("+8"), 1), None);
}

#[test]
fn decimals_read_back() {
    let mut n: u64 = 1;
    for i in 0..2000u64 {
        n = n.wrapping_mul(6364136223846793005).wrapping_add(2 * i + 1);
        for v in [n, n >> 30, n >> 60] {
            let s = decimal_text(v);
            assert_eq!(s, format!("{v}"));
            let cs = characters(&s);
            assert_eq!(parse_u64(&cs, cs.len()), Some(v));
        }
    }
    assert_eq!(decimal_text(0), "0");
    assert_eq!(decimal_text(u64::MAX), "18446744073709551615");
}

#[test]
fn texts_are_ordered_as_std_orders_them() {
    let texts = ["", "a", "aa", "ab", "b", "A", "a\u{e9}", "\u{e9}", "\u{1f600}", "\u{ffff}", "a/b"];
    for a in texts {
        for b in texts {
            assert_eq!(is_before(a, b), a < b, "{a:?} {b:?}");
            assert_eq!(is_text(&a.to_string(), b), a == b);
        }
    }
}
