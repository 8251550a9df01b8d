use stellar_router::text::{contains, is_whitespace, lines, parse_i64, second_piece_of, trim};

const SAMPLES: [&str; 14] = [
    "",
    "abc",
    "  padded\t",
    "\u{3000}wide\u{2028}",
    "a\nb\r\nc",
    "a\n\nb\n",
    "line\r",
    "\r\n",
    "\n",
    "x:y:z",
    ":lead",
    "no colon",
    "Public key: GABC\nSecret key: SXYZ\n",
    "\u{85}\u{a0}mixed \u{1680}",
];

#[test]
fn trim_matches_std() {
    for s in SAMPLES {
        assert_eq!(trim(s), s.trim(), "input {:?}", s);
    }
}

#[test]
fn lines_match_std() {
    for s in SAMPLES {
        assert_eq!(lines(s), s.lines().collect::<Vec<_>>(), "input {:?}", s);
    }
}

#[test]
fn second_piece_matches_std_split() {
    for s in SAMPLES {
        assert_eq!(second_piece_of(s, ':'), s.split(':').nth(1), "input {:?}", s);
    }
}

#[test]
fn contains_matches_std() {
    for s in SAMPLES {
        for pat in ["", "a", "key:", "Secret key:", "\n", "abcd"] {
            assert_eq!(contains(s, pat), s.contains(pat), "input {:?} {:?}", s, pat);
        }
    }
}

#[test]
fn whitespace_matches_std() {
    for c in ['a', ' ', '\t', '\n', '\u{b}', '\u{c}', '\r', '\u{85}', '\u{a0}', '\u{1680}', '\u{2000}',
        '\u{200a}', '\u{200b}', '\u{2028}', '\u{2029}', '\u{202f}', '\u{205f}', '\u{3000}', '\u{feff}', '0']
    {
        assert_eq!(is_whitespace(c), c.is_whitespace(), "char {:?}", c);
    }
}

#[test]
fn parse_matches_std() {
    for s in ["0", "+0", "-0", "12", "-12", "+", "-", "", "1a", "--1", "+-1", "9223372036854775807",
        "9223372036854775808", "-9223372036854775808", "-9223372036854775809", "00000000000000000000001"]
    {
        assert_eq!(parse_i64(s), s.parse::<i64>().ok(), "input {:?}", s);
    }
}
