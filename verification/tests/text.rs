use minder::order::{comes_before, sort_texts};
use minder::replace::{count_occurrences, replace_first};
use minder::text::{
    cut_once, decimal_text, has, has_prefix, has_suffix, joined, lines_of, parse_number,
    split_at_char, take_chars, trimmed, trimmed_end, trimmed_start, white, width_in_bytes,
    without_prefix, words_of,
};

const SAMPLES: [&str; 12] = [
    "",
    " ",
    "a",
    "plain text",
    "  padded\t\n",
    "one\ntwo\r\nthree\n",
    "\n\n",
    "a\rb\r\n",
    "äöü 日本 \u{3000}x\u{a0}",
    "aXbXXc",
    "XX",
    "mixed \u{2003}spaces\u{85}here",
];

fn texts(parts: &[&str]) -> Vec<String> {
    parts.iter().map(|s| s.to_string()).collect()
}

#[test]
fn white_space_and_widths_are_those_of_unicode() {
    for c in '\0'..=char::MAX {
        assert_eq!(white(c), c.is_whitespace(), "{c:?}");
        assert_eq!(width_in_bytes(c), c.len_utf8(), "{c:?}");
    }
}

#[test]
fn trimming_splitting_and_lines_agree_with_std() {
    for s in SAMPLES {
        assert_eq!(trimmed(s), s.trim(), "{s:?}");
        assert_eq!(trimmed_start(s), s.trim_start(), "{s:?}");
        assert_eq!(trimmed_end(s), s.trim_end(), "{s:?}");
        assert_eq!(lines_of(s), s.lines().collect::<Vec<_>>(), "{s:?}");
        assert_eq!(words_of(s), s.split_whitespace().collect::<Vec<_>>(), "{s:?}");
        assert_eq!(split_at_char(s, 'X'), s.split('X').collect::<Vec<_>>(), "{s:?}");
        assert_eq!(take_chars(s, 3), s.chars().take(3).collect::<String>(), "{s:?}");
    }
}

#[test]
fn searching_and_replacing_agree_with_std() {
    for s in SAMPLES {
        for pat in ["", "a", "X", "XX", "本", "\n", "text"] {
            assert_eq!(has(s, pat), s.contains(pat), "{s:?} {pat:?}");
            assert_eq!(has_prefix(s, pat), s.starts_with(pat), "{s:?} {pat:?}");
            assert_eq!(has_suffix(s, pat), s.ends_with(pat), "{s:?} {pat:?}");
            assert_eq!(without_prefix(s, pat).as_deref(), s.strip_prefix(pat), "{s:?} {pat:?}");
            let cut = s.split_once(pat).map(|(a, b)| (a.to_string(), b.to_string()));
            assert_eq!(cut_once(s, pat), cut, "{s:?} {pat:?}");
            assert_eq!(count_occurrences(s, pat), s.matches(pat).count(), "{s:?} {pat:?}");
            for limit in 0..4 {
                assert_eq!(
                    replace_first(s, pat, "<>", limit),
                    s.replacen(pat, "<>", limit),
                    "{s:?} {pat:?} {limit}"
                );
            }
            let all = count_occurrences(s, pat);
            assert_eq!(replace_first(s, pat, pat, all), s);
            assert_eq!(replace_first(s, pat, "-", all), replace_first(s, pat, "-", all + 5));
        }
    }
}

#[test]
fn numbers_are_written_and_read() {
    for n in [0, 7, 10, 4096, u64::MAX] {
        assert_eq!(decimal_text(n), n.to_string());
        assert_eq!(parse_number(&n.to_string(), u64::MAX), Some(n));
    }
    for s in ["", "+", "-1", "1 ", "x", "0007", "+12", "18446744073709551616"] {
        assert_eq!(parse_number(s, u64::MAX), s.parse::<u64>().ok(), "{s:?}");
        assert_eq!(parse_number(s, u64::from(u32::MAX)), s.parse::<u32>().ok().map(u64::from), "{s:?}");
    }
}

#[test]
fn sorting_agrees_with_std() {
    let names = ["b", "a/b", "a", "a.b", "", "ä", "a/", "B", "a b", "z\u{10ffff}", "z\u{e000}"];
    let mut expected = texts(&names);
    expected.sort();
    assert_eq!(sort_texts(texts(&names), false), expected);
    let mut paths: Vec<std::path::PathBuf> =
        ["b", "a/b", "a", "a.b", "a b/c", "B"].iter().map(|s| s.into()).collect();
    let shown: Vec<String> = paths.iter().map(|p| p.display().to_string()).collect();
    paths.sort();
    let sorted: Vec<String> = paths.iter().map(|p| p.display().to_string()).collect();
    assert_eq!(sort_texts(shown, true), sorted);
    assert!(comes_before("a", "b", false));
    assert!(!comes_before("a", "a", false));
    assert_eq!(joined(&texts(&["a", "b"]), ", "), "a, b");
    assert_eq!(joined(&Vec::new(), ", "), "");
}
