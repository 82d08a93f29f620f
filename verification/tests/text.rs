use plugin_setup::number::{parse_u32, push_i32};
use plugin_setup::text;

fn chars(s: &str) -> Vec<char> {
    text::chars_of(s)
}

fn string(s: &[char]) -> String {
    text::string_of(s)
}

const SAMPLES: [&str; 22] = [
    "",
    " ",
    "\n",
    "\r\n",
    "\r",
    "a",
    " a ",
    "a\n",
    "a\r\n",
    "a\r",
    "a\nb",
    "a\n\nb\r\n",
    "\n\n",
    "\u{2003}x\u{85}\u{a0}",
    "'a'",
    "''a\"",
    "\"'",
    "a'b",
    "a,b c,,d ",
    "…開始, x",
    "a.b.c",
    "\u{200b}z\u{200b}",
];

#[test]
fn white_space_is_what_unicode_says() {
    let mut count = 0;
    for n in 0..=0x10ffffu32 {
        if let Some(c) = char::from_u32(n) {
            assert_eq!(text::is_whitespace(c), c.is_whitespace(), "{:x}", n);
            if c.is_whitespace() {
                count += 1;
            }
        }
    }
    assert_eq!(count, 25);
}

#[test]
fn strings_and_characters_are_the_same_text() {
    for s in SAMPLES {
        assert_eq!(chars(s), s.chars().collect::<Vec<char>>());
        assert_eq!(string(&chars(s)), s);
    }
}

#[test]
fn trimming_agrees_with_the_standard_library() {
    for s in SAMPLES {
        let c = chars(s);
        assert_eq!(string(text::trim(&c)), s.trim());
        assert_eq!(string(text::trim_start(&c)), s.trim_start());
        assert_eq!(string(text::trim_end(&c)), s.trim_end());
        assert_eq!(string(text::trim_quotes(&c)), s.trim_matches(['\'', '"']));
    }
}

#[test]
fn lines_agree_with_the_standard_library() {
    for s in SAMPLES {
        let c = chars(s);
        let found: Vec<String> = text::lines(&c).iter().map(|l| string(l)).collect();
        let expected: Vec<String> = s.lines().map(|l| l.to_string()).collect();
        assert_eq!(found, expected, "{:?}", s);
    }
}

#[test]
fn splitting_agrees_with_the_standard_library() {
    for s in SAMPLES {
        let c = chars(s);
        let found: Vec<String> = text::split_at_either(&c, ',', ' ').iter().map(|l| string(l)).collect();
        let expected: Vec<String> = s.split([',', ' ']).map(|l| l.to_string()).collect();
        assert_eq!(found, expected, "{:?}", s);
        assert_eq!(string(text::before(&c, '.')), s.split('.').next().unwrap());
        assert_eq!(
            text::position_of_either(&c, 'b', 'x'),
            s.chars().position(|c| c == 'b' || c == 'x').unwrap_or(s.chars().count())
        );
    }
}

#[test]
fn searching_agrees_with_the_standard_library() {
    for s in SAMPLES {
        for pattern in ["a", "a\n", "", "''", "c,,"] {
            let c = chars(s);
            let p = chars(pattern);
            let expected = s.find(pattern).map(|at| s[..at].chars().count());
            assert_eq!(text::find(&c, &p), expected);
            assert_eq!(text::starts_with(&c, &p), s.starts_with(pattern));
            assert_eq!(
                text::strip_suffix(&c, &p).map(string),
                s.strip_suffix(pattern).map(|r| r.to_string())
            );
        }
    }
}

#[test]
fn equal_slices_are_found() {
    let a = chars("abc");
    let b = chars("abd");
    assert!(text::same_chars(&a, &chars("abc")));
    assert!(!text::same_chars(&a, &b));
    assert!(!text::same_chars(&a, &b[..2]));
    let list: Vec<&[char]> = vec![&a];
    assert!(text::holds(&list, &chars("abc")));
    assert!(!text::holds(&list, &b));
}

#[test]
fn equal_strings_are_found() {
    let list = vec!["abc".to_string(), "".to_string()];
    assert!(text::holds_string(&list, &"abc".to_string()));
    assert!(text::holds_string(&list, &"".to_string()));
    assert!(!text::holds_string(&list, &"ab".to_string()));
}

#[test]
fn a_text_is_cut_after_its_lines() {
    for s in SAMPLES {
        let c = chars(s);
        let endings: Vec<&str> = s.split_inclusive('\n').collect();
        for n in 0..endings.len() + 2 {
            let parts = text::cut_after_lines(&c, n);
            let k = n.min(endings.len());
            assert_eq!(string(parts.0), endings[..k].concat(), "{:?}", s);
            assert_eq!(string(parts.1), endings[k..].concat(), "{:?}", s);
        }
    }
}

#[test]
fn undoubling_agrees_with_the_standard_library() {
    for s in SAMPLES.iter().copied().chain(["it''s", "''''", "'''", "x'", "'x'''"]) {
        let mut out = "> ".to_string();
        text::push_undoubled(&mut out, &chars(s));
        assert_eq!(out, format!("> {}", s.replace("''", "'")));
    }
}

#[test]
fn replacing_agrees_with_the_standard_library() {
    for s in SAMPLES {
        let mut out = "> ".to_string();
        text::push_replaced(&mut out, &chars(s), '\'', "''");
        assert_eq!(out, format!("> {}", s.replace('\'', "''")));
    }
}

#[test]
fn numbers_are_read_as_the_standard_library_reads_them() {
    for s in [
        "", "+", "-", "0", "7", "10", "+10", "++1", "-1", "010", " 1", "1 ", "1a", "a1", "4294967295",
        "4294967296", "42949672950", "99999999999999999999999999", "9999999999999999999999999x", "１",
    ] {
        assert_eq!(parse_u32(&chars(s)), s.parse::<u32>().ok(), "{:?}", s);
    }
}

#[test]
fn numbers_are_written_as_the_standard_library_writes_them() {
    for n in [0, 1, 9, 10, 99, 100, 127, 255, -1, -9, -10, -1073741510, i32::MAX, i32::MIN] {
        let mut out = "code ".to_string();
        push_i32(&mut out, n);
        assert_eq!(out, format!("code {}", n));
    }
}
