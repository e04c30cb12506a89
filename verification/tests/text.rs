use tern::text::{chars_of, contains_text, copy_texts, join_lines, same_text, split_lines};

fn strings(items: &[&str]) -> Vec<String> {
    items.iter().map(|s| s.to_string()).collect()
}

#[test]
fn chars_of_keeps_every_character() {
    assert_eq!(chars_of("añb"), vec!['a', 'ñ', 'b']);
    assert_eq!(chars_of(""), Vec::<char>::new());
}

#[test]
fn same_text_compares_characters() {
    assert!(same_text("abc", "abc"));
    assert!(same_text("", ""));
    assert!(!same_text("abc", "abd"));
    assert!(!same_text("abc", "ab"));
    assert!(!same_text("md", "MD"));
}

#[test]
fn contains_text_finds_an_item() {
    let items = strings(&["pandoc", "ffmpeg"]);
    assert!(contains_text(&items, "ffmpeg"));
    assert!(!contains_text(&items, "ffmpe"));
    assert!(!contains_text(&Vec::new(), "x"));
}

#[test]
fn copy_texts_copies_in_order() {
    let items = strings(&["b", "a", ""]);
    assert_eq!(copy_texts(&items), items);
}

#[test]
fn split_lines_of_empty_text_is_empty() {
    assert_eq!(split_lines(""), Vec::<String>::new());
}

#[test]
fn split_lines_splits_at_line_feeds() {
    assert_eq!(split_lines("a\nb"), strings(&["a", "b"]));
    assert_eq!(split_lines("--toc\n--standalone\n-s"), strings(&["--toc", "--standalone", "-s"]));
}

#[test]
fn split_lines_needs_no_final_line_ending() {
    assert_eq!(split_lines("a\nb\n"), strings(&["a", "b"]));
    assert_eq!(split_lines("\n"), strings(&[""]));
}

#[test]
fn split_lines_keeps_empty_lines_inside() {
    assert_eq!(split_lines("a\n\nb"), strings(&["a", "", "b"]));
}

#[test]
fn split_lines_takes_carriage_return_with_line_feed() {
    assert_eq!(split_lines("a\r\nb\r\n"), strings(&["a", "b"]));
    assert_eq!(split_lines("a\r\r\nb"), strings(&["a\r", "b"]));
}

#[test]
fn split_lines_keeps_a_bare_carriage_return() {
    assert_eq!(split_lines("a\rb"), strings(&["a\rb"]));
    assert_eq!(split_lines("a\r"), strings(&["a\r"]));
}

#[test]
fn split_lines_agrees_with_std_lines() {
    for text in ["", "a", "a\n", "\n\n", "x\r\ny\rz\n\r\n", "one\ntwo\r", "é\nü"] {
        let expected: Vec<String> = text.lines().map(|l| l.to_string()).collect();
        assert_eq!(split_lines(text), expected);
    }
}

#[test]
fn join_lines_puts_line_feeds_between() {
    assert_eq!(join_lines(&strings(&["a", "b", "c"])), "a\nb\nc");
    assert_eq!(join_lines(&strings(&["a"])), "a");
    assert_eq!(join_lines(&Vec::new()), "");
    assert_eq!(join_lines(&strings(&["", ""])), "\n");
}

#[test]
fn split_lines_undoes_join_lines() {
    let items = strings(&["--from=markdown", "-o", "x y"]);
    assert_eq!(split_lines(&join_lines(&items)), items);
}
