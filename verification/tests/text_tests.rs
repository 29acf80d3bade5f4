use cloudex::number::{i64_text, parse_i64, u64_text, usize_text};
use cloudex::order::{eq_ignore_ascii_case, text_before};
use cloudex::pieces::{head, join, lines, replace, split, split_once, split_whitespace, tail};
use cloudex::text::{
    blank, chars_of, contains, ends_with, find, is_whitespace, same, starts_with, strip_prefix,
    strip_suffix, text_of, trim, trim_both, trim_end, trim_start, trim_suffix, Class,
};

const SAMPLES: [&str; 14] = [
    "",
    " ",
    "a",
    "  a b  ",
    "a/b/c",
    "/a//b/",
    "\t\n x \r\n",
    "one two  three",
    "x.git.git",
    ".git",
    "ü…日本",
    "\u{3000}x\u{85}",
    "a\r\nb\n\nc",
    "line\n",
];

#[test]
fn white_space_is_that_of_std() {
    for u in 0..=0x10FFFFu32 {
        if let Some(c) = char::from_u32(u) {
            assert_eq!(is_whitespace(c), c.is_whitespace(), "{u:x}");
        }
    }
}

#[test]
fn trimming_agrees_with_std() {
    for s in SAMPLES {
        assert_eq!(trim(s), s.trim());
        assert_eq!(trim_start(s, Class::Space), s.trim_start());
        assert_eq!(trim_end(s, Class::Space), s.trim_end());
        assert_eq!(trim_both(s, Class::Only('/')), s.trim_matches('/'));
        assert_eq!(trim_suffix(s, ".git"), s.trim_end_matches(".git"));
        assert_eq!(blank(s), s.trim().is_empty());
    }
}

#[test]
fn searching_agrees_with_std() {
    for s in SAMPLES {
        for p in ["", "a", "b", "/", " ", ".git", "x"] {
            assert_eq!(contains(s, p), s.contains(p));
            assert_eq!(starts_with(s, p), s.starts_with(p));
            assert_eq!(ends_with(s, p), s.ends_with(p));
            assert_eq!(strip_prefix(s, p), s.strip_prefix(p).map(str::to_string));
            assert_eq!(strip_suffix(s, p), s.strip_suffix(p).map(str::to_string));
        }
    }
    assert_eq!(find(&chars_of("abcabc"), &chars_of("ca")), Some(2));
    assert_eq!(find(&chars_of("abcabc"), &chars_of("cb")), None);
}

#[test]
fn characters_go_both_ways() {
    let v = chars_of("aü…");
    assert_eq!(v, vec!['a', 'ü', '…']);
    assert_eq!(text_of(&v, 1, 3), "ü…");
    assert!(same("aü…", &text_of(&v, 0, 3)));
    assert!(!same("a", "b"));
    assert!(!same("a", "ab"));
}

#[test]
fn pieces_agree_with_std() {
    for s in SAMPLES {
        let expected: Vec<String> = s.split('/').map(str::to_string).collect();
        assert_eq!(split(s, '/'), expected);
        let expected: Vec<String> = s.split_whitespace().map(str::to_string).collect();
        assert_eq!(split_whitespace(s), expected);
        let expected: Vec<String> = s.lines().map(str::to_string).collect();
        assert_eq!(lines(s), expected);
        assert_eq!(head(s, '/'), s.split('/').next().unwrap());
        assert_eq!(tail(s, '/'), s.rsplit('/').next().unwrap());
        assert_eq!(replace(s, '/', "__"), s.replace('/', "__"));
        let expected = s.split_once('/').map(|(a, b)| (a.to_string(), b.to_string()));
        assert_eq!(split_once(s, '/'), expected);
    }
    let parts = vec!["a".to_string(), "b".to_string(), "".to_string()];
    assert_eq!(join(&parts, ", "), "a, b, ");
    assert_eq!(join(&Vec::new(), ", "), "");
}

#[test]
fn numbers_are_written_as_std_writes_them() {
    for n in [0u64, 1, 9, 10, 99, 100, 12345, u64::MAX] {
        assert_eq!(u64_text(n), n.to_string());
    }
    for n in [0i64, -1, 7, -10, i64::MAX, i64::MIN] {
        assert_eq!(i64_text(n), n.to_string());
        assert_eq!(parse_i64(&i64_text(n)), Some(n));
    }
    assert_eq!(usize_text(usize::MAX), usize::MAX.to_string());
}

#[test]
fn numbers_are_read_as_std_reads_them() {
    for s in [
        "", "+", "-", "0", "-0", "+5", "007", "12a", " 1", "1 ", "9223372036854775807",
        "9223372036854775808", "-9223372036854775808", "-9223372036854775809", "٣", "--1",
        "00000000000000000000000000001", "99999999999999999999999999",
    ] {
        assert_eq!(parse_i64(s), s.parse::<i64>().ok(), "{s}");
    }
}

#[test]
fn texts_are_ordered_as_std_orders_them() {
    for a in SAMPLES {
        for b in SAMPLES {
            assert_eq!(text_before(a, b), a < b);
            assert_eq!(eq_ignore_ascii_case(a, b), a.eq_ignore_ascii_case(b));
        }
    }
    assert!(eq_ignore_ascii_case("PROD", "prod"));
    assert!(!eq_ignore_ascii_case("Ü", "ü"));
}
