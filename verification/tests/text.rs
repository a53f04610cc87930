//! Text, lines, numbers and paths, held against the standard library.
use std::path::Path;

use tux::decimal::{parse_u64_text, show, show_signed, show_usize};
use tux::lines::{leading_word, lines, split, split_once};
use tux::paths::{components, file_name_of, is_below, join_path, parent_of};
use tux::search::{
    contains_text, count_matches, cut, find, find_from, replace_all,
};
use tux::text::{
    append_all, chars_of, concat2, concat8, copy_texts, count_bytes, drop_leading, drop_trailing,
    ends_with, join, same_chars, same_text, starts_with, string_of, strip_prefix, take_chars,
    text_order, to_ascii_lower, trim, trim_end, white_space, TextOrder,
};

const SAMPLES: [&str; 22] = [
    "",
    " ",
    "a",
    "ab",
    "aaa",
    "abab",
    "ababab",
    "a b  c",
    "\n",
    "a\n",
    "a\nb",
    "a\r\nb\r\n",
    "\r\n\r\n",
    "a\rb",
    "\n\na",
    "grüße, \u{3000}welt\u{85}",
    "\u{a0}\u{2003}x\u{202f}",
    "==",
    "k=v=w",
    "日本語",
    "\t tab \u{b}",
    "x\u{200b}",
];

#[test]
fn white_space_is_what_unicode_says() {
    for c in '\u{0}'..='\u{10ffff}' {
        assert_eq!(white_space(c), c.is_whitespace(), "{c:?}");
    }
}

#[test]
fn trimming_agrees_with_std() {
    for s in SAMPLES {
        assert_eq!(trim(s), s.trim(), "{s:?}");
        assert_eq!(trim_end(s), s.trim_end(), "{s:?}");
        assert_eq!(string_of(drop_leading(&chars_of(s), 'a')), s.trim_start_matches('a'));
        assert_eq!(string_of(drop_trailing(&chars_of(s), 'b')), s.trim_end_matches('b'));
    }
}

#[test]
fn lines_agree_with_std() {
    for s in SAMPLES {
        let want: Vec<String> = s.lines().map(|l| l.to_string()).collect();
        assert_eq!(lines(s), want, "{s:?}");
        for c in ['\n', '=', 'a', ':'] {
            let want: Vec<String> = s.split(c).map(|l| l.to_string()).collect();
            assert_eq!(split(s, c), want, "{s:?} at {c:?}");
            let want = s.split_once(c).map(|(a, b)| (a.to_string(), b.to_string()));
            assert_eq!(split_once(s, c), want, "{s:?} at {c:?}");
        }
        let want = s.split_whitespace().next().map(|w| w.to_string());
        let chars = chars_of(s);
        assert_eq!(leading_word(&chars).map(string_of), want, "{s:?}");
    }
}

#[test]
fn searching_agrees_with_std() {
    for s in SAMPLES {
        for pat in ["a", "ab", "aa", "b", "\n", "=", "ü", "zz", "aba"] {
            let (cs, cp) = (chars_of(s), chars_of(pat));
            let want = s.find(pat).map(|i| s[..i].chars().count());
            assert_eq!(find(&cs, &cp), want, "{pat:?} in {s:?}");
            assert_eq!(contains_text(s, pat), s.contains(pat));
            assert_eq!(count_matches(&cs, &cp), s.matches(pat).count(), "{pat:?} in {s:?}");
            assert_eq!(replace_all(s, pat, "<>"), s.replace(pat, "<>"), "{pat:?} in {s:?}");
            assert_eq!(starts_with(&cs, &cp), s.starts_with(pat));
            assert_eq!(ends_with(&cs, &cp), s.ends_with(pat));
            let want = s.strip_prefix(pat).map(|r| r.to_string());
            assert_eq!(strip_prefix(s, pat), want);
            let parts = cut(&cs, pat).map(|(a, b)| (string_of(a), string_of(b)));
            let want = s.split_once(pat).map(|(a, b)| (a.to_string(), b.to_string()));
            assert_eq!(parts, want);
        }
    }
    assert_eq!(find_from(&chars_of("abab"), &chars_of("ab"), 1), Some(2));
    assert_eq!(find_from(&chars_of("abab"), &chars_of("ab"), 9), None);
}

#[test]
fn texts_are_put_together() {
    assert_eq!(concat2("a", "ü"), "aü");
    assert_eq!(concat8("1", "2", "3", "4", "5", "6", "7", "8"), "12345678");
    let parts = vec!["a".to_string(), "".to_string(), "c".to_string()];
    assert_eq!(join(&parts, ", "), "a, , c");
    assert_eq!(join(&vec![], ", "), "");
    assert_eq!(copy_texts(&parts), parts);
    let mut out = vec!['x'];
    append_all(&mut out, &['y', 'z']);
    assert!(same_chars(&out, &['x', 'y', 'z']));
    assert!(same_text("aü", "aü") && !same_text("a", "b"));
    assert_eq!(string_of(take_chars(&chars_of("日本語"), 2)), "日本");
    assert_eq!(string_of(take_chars(&chars_of("日"), 2)), "日");
    assert_eq!(to_ascii_lower("AbÄZ[@"), "AbÄZ[@".to_ascii_lowercase());
    for s in SAMPLES {
        assert_eq!(count_bytes(s), s.len());
    }
}

#[test]
fn order_is_that_of_strings() {
    for a in SAMPLES {
        for b in SAMPLES {
            let got = text_order(a, b);
            let fits = if a < b {
                matches!(got, TextOrder::Before)
            } else if a == b {
                matches!(got, TextOrder::Same)
            } else {
                matches!(got, TextOrder::After)
            };
            assert!(fits, "{a:?} and {b:?}");
        }
    }
}

#[test]
fn numerals_agree_with_std() {
    for n in [0, 1, 9, 10, 99, 100, 1234567890, u64::MAX] {
        assert_eq!(show(n), n.to_string());
        assert_eq!(show_usize(n as usize), n.to_string());
    }
    for n in [0, 1, -1, 10, -10, i64::MAX, i64::MIN] {
        assert_eq!(show_signed(n), format!("{n:+}"));
    }
    for s in [
        "0",
        "007",
        "+5",
        "++5",
        "+",
        "",
        "-0",
        "12x",
        " 1",
        "18446744073709551615",
        "18446744073709551616",
        "00000000000000000000000000018446744073709551615",
        "99999999999999999999999",
        "١",
    ] {
        assert_eq!(parse_u64_text(s), s.parse::<u64>().ok(), "{s:?}");
    }
}

const PATHS: [&str; 33] = [
    "",
    "/",
    "//",
    ".",
    "..",
    "./",
    "../",
    "a",
    "a/",
    "a//",
    "a/.",
    "a/./",
    "a/..",
    "./a",
    "././a",
    "../a",
    "/a",
    "/a/",
    "//a",
    "/.",
    "/./a",
    "/..",
    "/../a",
    "a/b",
    "a//b",
    "a/./b",
    "a/b/",
    "a/b/.",
    "/a/b/c.txt",
    "/home/alice/bin",
    "/home/alice",
    ".hidden",
    "a/.hidden/..",
];

#[test]
fn paths_agree_with_std() {
    for p in PATHS {
        let std = Path::new(p);
        let want = std.parent().map(|q| q.to_str().unwrap().to_string());
        assert_eq!(parent_of(p), want, "parent of {p:?}");
        let want = std.file_name().map(|q| q.to_str().unwrap().to_string());
        assert_eq!(file_name_of(p), want, "name of {p:?}");
        let want: Vec<String> =
            std.components().map(|c| c.as_os_str().to_str().unwrap().to_string()).collect();
        assert_eq!(components(p), want, "components of {p:?}");
        for q in PATHS {
            assert_eq!(join_path(p, q), std.join(q).to_str().unwrap(), "{p:?} joined {q:?}");
            assert_eq!(is_below(p, q), std.starts_with(q), "{p:?} below {q:?}");
        }
    }
}
