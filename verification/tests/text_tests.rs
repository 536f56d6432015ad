use gemini_crawler::text::{
    extend, find_crlf, find_from, is_space, same, slice, split_lines, to_chars, to_string,
    trimmed, untab,
};

fn chars(s: &str) -> Vec<char> {
    s.chars().collect()
}

fn strings(lines: Vec<Vec<char>>) -> Vec<String> {
    lines.iter().map(|l| l.iter().collect()).collect()
}

#[test]
fn chars_and_strings_convert_both_ways() {
    assert_eq!(to_chars("héllo"), vec!['h', 'é', 'l', 'l', 'o']);
    assert_eq!(to_string(&chars("héllo")), "héllo");
    assert_eq!(to_chars(""), Vec::<char>::new());
}

#[test]
fn is_space_agrees_with_the_unicode_property() {
    let mut n: u32 = 0;
    while n <= 0x10ffff {
        if let Some(c) = char::from_u32(n) {
            assert_eq!(is_space(c), c.is_whitespace(), "at {:x}", n);
        }
        n += 1;
    }
}

#[test]
fn trimmed_removes_white_space_at_both_ends_only() {
    assert_eq!(to_string(&trimmed(&chars("  a b\t\r"))), "a b");
    assert_eq!(to_string(&trimmed(&chars("\u{3000}x\u{a0}"))), "x");
    assert_eq!(to_string(&trimmed(&chars("   "))), "");
    assert_eq!(to_string(&trimmed(&chars(""))), "");
    assert_eq!(to_string(&trimmed(&chars("plain"))), "plain");
}

#[test]
fn split_lines_follows_line_feeds_and_drops_carriage_returns_before_them() {
    assert_eq!(strings(split_lines(&chars(""))), Vec::<String>::new());
    assert_eq!(strings(split_lines(&chars("a"))), vec!["a"]);
    assert_eq!(strings(split_lines(&chars("a\n"))), vec!["a"]);
    assert_eq!(strings(split_lines(&chars("a\n\n"))), vec!["a", ""]);
    assert_eq!(strings(split_lines(&chars("\n"))), vec![""]);
    assert_eq!(strings(split_lines(&chars("a\r\nb\rc\n\r\nd\r"))), vec!["a", "b\rc", "", "d\r"]);
}

#[test]
fn split_lines_agrees_with_the_standard_library() {
    for body in ["", "x", "x\n", "\n\nx", "a\r\n\r\nb", "\r", "\r\n", "a\r\r\nb", "a\nb\nc"] {
        let expected: Vec<String> = body.lines().map(|l| l.to_string()).collect();
        assert_eq!(strings(split_lines(&chars(body))), expected, "for {:?}", body);
    }
}

#[test]
fn find_from_gives_the_first_index_or_the_length() {
    let v = chars("a b c");
    assert_eq!(find_from(&v, 0, ' '), 1);
    assert_eq!(find_from(&v, 2, ' '), 3);
    assert_eq!(find_from(&v, 4, ' '), 5);
    assert_eq!(find_from(&v, 5, ' '), 5);
    assert_eq!(find_from(&v, 0, 'z'), 5);
}

#[test]
fn find_crlf_gives_the_first_pair_or_the_length() {
    assert_eq!(find_crlf(&chars("20 x\r\nbody\r\n")), 4);
    assert_eq!(find_crlf(&chars("\r\n")), 0);
    assert_eq!(find_crlf(&chars("a\rb\nc")), 5);
    assert_eq!(find_crlf(&chars("a\r")), 2);
    assert_eq!(find_crlf(&chars("")), 0);
}

#[test]
fn untab_replaces_tabs_by_spaces() {
    assert_eq!(to_string(&untab(&chars("a\tb\t\tc"))), "a b  c");
}

#[test]
fn slice_extend_and_same_work_on_ranges() {
    let v = chars("abcdef");
    assert_eq!(to_string(&slice(&v, 1, 4)), "bcd");
    assert_eq!(to_string(&slice(&v, 3, 3)), "");
    let mut out = chars("xy");
    extend(&mut out, &chars("z!"));
    assert_eq!(to_string(&out), "xyz!");
    assert!(same(&chars("abc"), &chars("abc")));
    assert!(!same(&chars("abc"), &chars("abd")));
    assert!(!same(&chars("abc"), &chars("ab")));
}
