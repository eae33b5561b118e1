use sitegen::frontmatter::{extract_metadata, is_delimiter, split_frontmatter};
use sitegen::text::chars_of;

fn split(content: &str) -> (String, String) {
    split_frontmatter(content)
}

fn pair(a: &str, b: &str) -> (String, String) {
    (a.to_string(), b.to_string())
}

#[test]
fn split_closed_block() {
    assert_eq!(split("---\ntitle: Hello\n---\n# Hi"), pair("title: Hello\n", "# Hi\n"));
    assert_eq!(
        split("---\ntitle: Hello\ndate: 2024-01-01\n---\nline one\n\nline two\n"),
        pair("title: Hello\ndate: 2024-01-01\n", "line one\n\nline two\n")
    );
}

#[test]
fn split_without_frontmatter_keeps_content_as_it_is() {
    assert_eq!(split("# Hi\nthere"), pair("", "# Hi\nthere"));
    assert_eq!(split("# Hi\r\nthere\r\n"), pair("", "# Hi\r\nthere\r\n"));
    assert_eq!(split("\n---\ntitle: x\n---\n"), pair("", "\n---\ntitle: x\n---\n"));
    assert_eq!(split(""), pair("", ""));
}

#[test]
fn split_unclosed_block_takes_everything() {
    assert_eq!(split("---\ntitle: x\nbody text"), pair("title: x\nbody text\n", ""));
    assert_eq!(split("---\n"), pair("", ""));
    assert_eq!(split("---"), pair("", ""));
}

#[test]
fn split_empty_block() {
    assert_eq!(split("---\n---\nbody"), pair("", "body\n"));
    assert_eq!(split("---\n---"), pair("", ""));
}

#[test]
fn split_stops_at_the_first_closing_line() {
    assert_eq!(split("---\na: 1\n---\nx\n---\ny"), pair("a: 1\n", "x\n---\ny\n"));
}

#[test]
fn split_delimiter_must_be_exact() {
    assert_eq!(split("--- \ntitle: x\n---\n"), pair("", "--- \ntitle: x\n---\n"));
    assert_eq!(split("----\ntitle: x\n---\n"), pair("", "----\ntitle: x\n---\n"));
    assert_eq!(split(" ---\ntitle: x\n---\n"), pair("", " ---\ntitle: x\n---\n"));
    assert_eq!(split("---\na: 1\n--- \nb"), pair("a: 1\n--- \nb\n", ""));
}

#[test]
fn split_with_carriage_returns() {
    assert_eq!(
        split("---\r\ntitle: A\r\n---\r\nBody\r\nmore\r\n"),
        pair("title: A\n", "Body\nmore\n")
    );
}

#[test]
fn delimiter_line() {
    assert!(is_delimiter(&chars_of("---")));
    assert!(!is_delimiter(&chars_of("--")));
    assert!(!is_delimiter(&chars_of("----")));
    assert!(!is_delimiter(&chars_of("-+-")));
    assert!(!is_delimiter(&chars_of("")));
}

#[test]
fn extract_finds_and_trims() {
    let block = "title:   Hello World  \nimage: /a.png\ndate:2024-05-06\n";
    assert_eq!(extract_metadata(block, "title"), Some("Hello World".to_string()));
    assert_eq!(extract_metadata(block, "image"), Some("/a.png".to_string()));
    assert_eq!(extract_metadata(block, "date"), Some("2024-05-06".to_string()));
    assert_eq!(extract_metadata(block, "description"), None);
}

#[test]
fn extract_first_occurrence_wins() {
    assert_eq!(extract_metadata("title: one\ntitle: two\n", "title"), Some("one".to_string()));
}

#[test]
fn extract_is_exact_and_case_sensitive() {
    assert_eq!(extract_metadata("Title: x\n", "title"), None);
    assert_eq!(extract_metadata(" title: x\n", "title"), None);
    assert_eq!(extract_metadata("titles: x\n", "title"), None);
    assert_eq!(extract_metadata("title : x\n", "title"), None);
    assert_eq!(extract_metadata("title: x\n", "tit"), None);
    assert_eq!(extract_metadata("title:x:y\n", "title"), Some("x:y".to_string()));
}

#[test]
fn extract_empty_values_and_blocks() {
    assert_eq!(extract_metadata("title:\n", "title"), Some(String::new()));
    assert_eq!(extract_metadata("title:   \n", "title"), Some(String::new()));
    assert_eq!(extract_metadata("", "title"), None);
    assert_eq!(extract_metadata("no colon here\n", "title"), None);
}

#[test]
fn extract_takes_values_as_they_stand() {
    assert_eq!(extract_metadata("date: not a date!\n", "date"), Some("not a date!".to_string()));
    assert_eq!(extract_metadata("title: \u{3000}wide\u{a0}\r\n", "title"), Some("wide".to_string()));
}

#[test]
fn extract_ignores_order_and_other_keys() {
    let a = "author: me\ntitle: T\ntags: x\n";
    let b = "title: T\nauthor: me\n";
    let c = "tags: x\nauthor: me\nmalformed line\ntitle: T";
    for block in [a, b, c] {
        assert_eq!(extract_metadata(block, "title"), Some("T".to_string()));
    }
}

#[test]
fn extract_after_split() {
    let (block, body) = split("---\ndescription: d\ntitle:  Some Title \n---\ntext");
    assert_eq!(extract_metadata(&block, "title"), Some("Some Title".to_string()));
    assert_eq!(extract_metadata(&block, "description"), Some("d".to_string()));
    assert_eq!(body, "text\n");
}
