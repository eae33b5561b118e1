use sitegen::text::{
    char_is_whitespace, chars_of, has_prefix, joined, same_text, slice_of, split_lines, string_of,
    trimmed_from,
};

fn lines_of(s: &str) -> Vec<String> {
    split_lines(&chars_of(s)).iter().map(string_of).collect()
}

fn trimmed(s: &str) -> String {
    string_of(&trimmed_from(&chars_of(s), 0))
}

#[test]
fn chars_and_back() {
    let s = "héllo, wörld \u{3000}\n";
    let chars = chars_of(s);
    assert_eq!(chars, s.chars().collect::<Vec<char>>());
    assert_eq!(string_of(&chars), s);
    assert_eq!(string_of(&chars_of("")), "");
}

#[test]
fn whitespace_is_that_of_std_for_every_char() {
    let mut code: u32 = 0;
    while code <= 0x10FFFF {
        if let Some(c) = char::from_u32(code) {
            assert_eq!(char_is_whitespace(c), c.is_whitespace(), "U+{:04X}", code);
        }
        code += 1;
    }
}

#[test]
fn whitespace_named_characters() {
    for c in [' ', '\t', '\n', '\r', '\u{b}', '\u{c}', '\u{85}', '\u{a0}', '\u{1680}', '\u{2000}', '\u{200a}', '\u{2028}', '\u{2029}', '\u{202f}', '\u{205f}', '\u{3000}'] {
        assert!(char_is_whitespace(c));
    }
    for c in ['a', '-', ':', '\u{8}', '\u{e}', '\u{200b}', '\u{180e}', '\u{feff}', '\0'] {
        assert!(!char_is_whitespace(c));
    }
}

#[test]
fn lines_split_at_line_feeds() {
    assert_eq!(lines_of("a\nb\nc"), vec!["a", "b", "c"]);
    assert_eq!(lines_of("a\nb\nc\n"), vec!["a", "b", "c"]);
    assert_eq!(lines_of("a\n\nb"), vec!["a", "", "b"]);
    assert_eq!(lines_of("\n"), vec![""]);
    assert_eq!(lines_of("\n\n"), vec!["", ""]);
    assert_eq!(lines_of("one line"), vec!["one line"]);
    assert!(lines_of("").is_empty());
}

#[test]
fn lines_drop_a_carriage_return_before_a_line_feed_only() {
    assert_eq!(lines_of("a\r\nb\r\n"), vec!["a", "b"]);
    assert_eq!(lines_of("a\rb\n"), vec!["a\rb"]);
    assert_eq!(lines_of("a\r"), vec!["a\r"]);
    assert_eq!(lines_of("a\r\r\nb"), vec!["a\r", "b"]);
    assert_eq!(lines_of("\r\n"), vec![""]);
}

#[test]
fn lines_are_those_of_std() {
    let samples = [
        "",
        "\n",
        "\r",
        "\r\n",
        "a",
        "a\n",
        "a\r\n",
        "a\r\nb",
        "a\n\r\nb\r",
        "---\ntitle: x\n---\nbody",
        "\n\n\n",
        "x\r\r\n\ny\n\r",
        "ünï\ncödé\r\n",
    ];
    for s in samples {
        let want: Vec<String> = s.lines().map(|l| l.to_string()).collect();
        assert_eq!(lines_of(s), want, "{:?}", s);
    }
}

#[test]
fn trimming_strips_both_ends() {
    assert_eq!(trimmed("  hello world \t\n"), "hello world");
    assert_eq!(trimmed("hello"), "hello");
    assert_eq!(trimmed(" \t \n"), "");
    assert_eq!(trimmed(""), "");
    assert_eq!(trimmed("\u{3000}a b\u{a0}"), "a b");
    assert_eq!(trimmed("\u{200b}a"), "\u{200b}a");
}

#[test]
fn trimming_is_that_of_std() {
    let samples = ["", " ", "a", " a", "a ", " a b ", "\r\n x \r\n", "\u{2003}wide\u{2003}", "\u{feff}x "];
    for s in samples {
        assert_eq!(trimmed(s), s.trim(), "{:?}", s);
    }
}

#[test]
fn trimming_from_a_position() {
    let chars = chars_of("title:  Hello  ");
    assert_eq!(string_of(&trimmed_from(&chars, 6)), "Hello");
    assert_eq!(string_of(&trimmed_from(&chars, chars.len())), "");
}

#[test]
fn slices_and_prefixes() {
    let chars = chars_of("abcdef");
    assert_eq!(string_of(&slice_of(&chars, 1, 4)), "bcd");
    assert_eq!(string_of(&slice_of(&chars, 2, 2)), "");
    assert!(has_prefix(&chars, &chars_of("abc")));
    assert!(has_prefix(&chars, &chars_of("")));
    assert!(has_prefix(&chars, &chars_of("abcdef")));
    assert!(!has_prefix(&chars, &chars_of("abd")));
    assert!(!has_prefix(&chars, &chars_of("abcdefg")));
}

#[test]
fn same_text_compares_whole_strings() {
    assert!(same_text("md", "md"));
    assert!(same_text("", ""));
    assert!(!same_text("md", "MD"));
    assert!(!same_text("md", "mdx"));
    assert!(!same_text("md", "m"));
}

#[test]
fn joining_ends_every_line_with_a_line_feed() {
    let ls = split_lines(&chars_of("a\nb\r\nc"));
    assert_eq!(string_of(&joined(&ls, 0, 3)), "a\nb\nc\n");
    assert_eq!(string_of(&joined(&ls, 1, 2)), "b\n");
    assert_eq!(string_of(&joined(&ls, 2, 2)), "");
}
