use wiki_core::title::extract_title;

#[test]
fn first_line_is_title() {
    assert_eq!(
        extract_title("# Hello\nWorld"),
        Some(String::from("# Hello"))
    );
}

#[test]
fn blank_lines_are_skipped() {
    assert_eq!(
        extract_title("\n  \nSecond line\nmore"),
        Some(String::from("Second line"))
    );
}

#[test]
fn all_blank_gives_none() {
    assert_eq!(extract_title("   \n\t\n"), None);
}

#[test]
fn empty_gives_none() {
    assert_eq!(extract_title(""), None);
}

#[test]
fn single_line_without_newline() {
    assert_eq!(extract_title("one"), Some(String::from("one")));
}

#[test]
fn carriage_returns_are_blank() {
    assert_eq!(extract_title("\r\nTitle\r\nbody"), Some(String::from("Title\r")));
}
