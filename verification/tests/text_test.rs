use vm_box::text::{
    decimal_text, has_char, hex_text, is_white, join, lines, listed, pad, parse_u64, same,
    signed_text, split, starts_with, strip_prefixes, trim, words,
};

fn samples() -> Vec<&'static str> {
    vec![
        "",
        " ",
        "a",
        " a b ",
        "\t\r\n x \u{a0}\u{3000}",
        "one\ntwo\r\nthree",
        "ends with newline\n",
        "\n\n",
        "\r",
        "a\rb\n",
        "a\r\n\r\nb",
        "tab\tsep\t\tarated",
        "naïve café → ok",
        "\u{feff}bom",
        "a:b::c:",
        ":",
        "/usr/local//bin/",
        "\u{200b} zero width",
        "x\u{85}y\u{2028}z",
    ]
}

#[test]
fn white_space_is_that_of_unicode() {
    let mut n: u32 = 0;
    while n <= 0x10ffff {
        if let Some(c) = char::from_u32(n) {
            assert_eq!(is_white(c), c.is_whitespace(), "{:x}", n);
        }
        n += 1;
    }
}

#[test]
fn trimming_and_splitting_agree_with_std() {
    for s in samples() {
        assert_eq!(trim(s), s.trim(), "{:?}", s);
        assert_eq!(lines(s), s.lines().collect::<Vec<_>>(), "{:?}", s);
        assert_eq!(words(s), s.split_whitespace().collect::<Vec<_>>(), "{:?}", s);
        for sep in ['\t', ':', '/', '\n', 'a'] {
            assert_eq!(split(s, sep), s.split(sep).collect::<Vec<_>>(), "{:?}", s);
            assert_eq!(has_char(s, sep), s.contains(sep), "{:?}", s);
        }
    }
}

#[test]
fn prefixes_agree_with_std() {
    for s in samples() {
        for p in ["a", "one", "/", "x\u{85}", "ends with newline\n and more"] {
            assert_eq!(starts_with(s, p), s.starts_with(p), "{:?} {:?}", s, p);
            assert_eq!(strip_prefixes(s, p), s.trim_start_matches(p), "{:?} {:?}", s, p);
        }
    }
    assert_eq!(strip_prefixes("/dev/disk/dev/disk4s1", "/dev/disk"), "4s1");
    assert!(starts_with("abc", ""));
}

#[test]
fn joining_puts_the_separator_between() {
    let v = vec!["a".to_string(), "".to_string(), "c".to_string()];
    assert_eq!(join(&v, ", "), "a, , c");
    assert_eq!(join(&Vec::new(), ", "), "");
}

#[test]
fn padding_counts_characters() {
    for s in ["", "abc", "naïve →", "a text that is longer than the width"] {
        assert_eq!(pad(s, 12), format!("{:<12}", s));
    }
}

#[test]
fn decimal_notation() {
    for n in [0u64, 7, 10, 42, 99, 100, 1_000_000, u64::MAX] {
        assert_eq!(decimal_text(n), n.to_string());
    }
    for n in [0i32, -1, 137, i32::MIN, i32::MAX] {
        assert_eq!(signed_text(n), n.to_string());
    }
}

#[test]
fn different_numbers_have_different_notations() {
    let all: std::collections::BTreeSet<String> = (0..2000u64).map(decimal_text).collect();
    assert_eq!(all.len(), 2000);
}

#[test]
fn hexadecimal_notation() {
    for n in [0u64, 1, 0xabc, 0xdead_beef_0123_4567, u64::MAX] {
        assert_eq!(hex_text(n, 16), format!("{:016x}", n));
    }
}

#[test]
fn numbers_are_read_as_std_reads_them() {
    for s in [
        "0", "12", "+12", "-1", "", "+", " 1", "1 ", "18446744073709551615",
        "18446744073709551616", "99999999999999999999", "00000000000000000000007", "1_000", "٣",
        "++1", "12x",
    ] {
        assert_eq!(parse_u64(s), s.parse::<u64>().ok(), "{:?}", s);
    }
}

#[test]
fn equality_and_membership() {
    assert!(same("abc", "abc"));
    assert!(!same("abc", "abd"));
    let v = vec!["a".to_string(), "b".to_string()];
    assert!(listed(&v, "b"));
    assert!(!listed(&v, "c"));
}
