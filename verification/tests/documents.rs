use text_editor::{Document, Position};

fn document(lines: &[&str]) -> Document {
    let lines: Vec<String> = lines.iter().map(|line| line.to_string()).collect();
    Document::from_lines(&lines, None)
}

fn lines(document: &Document) -> Vec<String> {
    (0..document.len())
        .map(|y| String::from_utf8(document.row(y).unwrap().as_bytes().to_vec()).unwrap())
        .collect()
}

#[test]
fn default_document_is_empty_and_clean() {
    let document = Document::default();
    assert_eq!(document.len(), 0);
    assert!(!document.is_dirty());
    assert!(document.file_name.is_none());
    assert!(document.row(0).is_none());
}

#[test]
fn from_lines_keeps_order_and_name() {
    let source = vec!["one".to_string(), "two".to_string(), "".to_string()];
    let document = Document::from_lines(&source, Some("notes.txt".to_string()));
    assert_eq!(lines(&document), vec!["one", "two", ""]);
    assert_eq!(document.file_name.as_deref(), Some("notes.txt"));
    assert!(!document.is_dirty());
}

#[test]
fn row_is_none_past_the_end() {
    let document = document(&["a", "b"]);
    assert!(document.row(1).is_some());
    assert!(document.row(2).is_none());
    assert!(document.row(usize::MAX).is_none());
    assert_eq!(document.row(1).unwrap().len(), 1);
}

#[test]
fn insert_char_into_a_line() {
    let mut document = document(&["abc", "def"]);
    document.insert(&Position { x: 1, y: 1 }, 'X');
    assert_eq!(lines(&document), vec!["abc", "dXef"]);
    assert!(document.is_dirty());
}

#[test]
fn insert_char_at_the_end_of_the_document_adds_a_line() {
    let mut document = document(&["abc"]);
    document.insert(&Position { x: 0, y: 1 }, 'z');
    assert_eq!(lines(&document), vec!["abc", "z"]);
    assert!(document.is_dirty());
}

#[test]
fn insert_char_into_an_empty_document() {
    let mut document = Document::default();
    document.insert(&Position { x: 0, y: 0 }, 'q');
    assert_eq!(lines(&document), vec!["q"]);
}

#[test]
fn insert_beyond_the_end_is_ignored() {
    let mut document = document(&["abc"]);
    document.insert(&Position { x: 0, y: 2 }, 'z');
    document.insert(&Position { x: 0, y: 2 }, '\n');
    assert_eq!(lines(&document), vec!["abc"]);
    assert!(!document.is_dirty());
}

#[test]
fn newline_splits_a_line() {
    let mut document = document(&["hello", "world"]);
    document.insert(&Position { x: 2, y: 0 }, '\n');
    assert_eq!(lines(&document), vec!["he", "llo", "world"]);
    assert_eq!(document.row(0).unwrap().len(), 2);
    assert_eq!(document.row(1).unwrap().len(), 3);
    assert!(document.is_dirty());
}

#[test]
fn newline_at_the_end_of_the_document_adds_an_empty_line() {
    let mut document = document(&["abc"]);
    document.insert(&Position { x: 0, y: 1 }, '\n');
    assert_eq!(lines(&document), vec!["abc", ""]);
    assert!(document.is_dirty());
}

#[test]
fn newline_in_an_empty_line_gives_two_empty_lines() {
    let mut document = document(&[""]);
    document.insert(&Position { x: 0, y: 0 }, '\n');
    assert_eq!(lines(&document), vec!["", ""]);
    assert_eq!(document.len(), 2);
}

#[test]
fn delete_at_the_end_of_a_line_joins_the_next() {
    let mut document = document(&["ab", "cd"]);
    document.delete(&Position { x: 2, y: 0 });
    assert_eq!(lines(&document), vec!["abcd"]);
    assert_eq!(document.len(), 1);
    assert_eq!(document.row(0).unwrap().len(), 4);
    assert!(document.is_dirty());
}

#[test]
fn delete_inside_a_line_removes_a_cluster() {
    let mut document = document(&["ae\u{301}b", "cd"]);
    document.delete(&Position { x: 1, y: 0 });
    assert_eq!(lines(&document), vec!["ab", "cd"]);
}

#[test]
fn delete_at_the_end_of_the_last_line_changes_no_text() {
    let mut document = document(&["ab", "cd"]);
    document.delete(&Position { x: 2, y: 1 });
    assert_eq!(lines(&document), vec!["ab", "cd"]);
    assert!(document.is_dirty());
}

#[test]
fn delete_beyond_the_last_line_is_ignored() {
    let mut document = document(&["ab"]);
    document.delete(&Position { x: 0, y: 1 });
    document.delete(&Position { x: 0, y: 7 });
    assert_eq!(lines(&document), vec!["ab"]);
    assert!(!document.is_dirty());
}

#[test]
fn delete_undoes_newline() {
    for y in 0..3 {
        for x in 0..6 {
            let mut document = document(&["first", "se\u{301}cond", ""]);
            document.insert(&Position { x, y }, '\n');
            assert_eq!(document.len(), 4);
            let end = document.row(y).unwrap().len();
            document.delete(&Position { x: end, y });
            assert_eq!(lines(&document), vec!["first", "se\u{301}cond", ""]);
            assert_eq!(document.len(), 3);
        }
    }
}

#[test]
fn mark_clean_clears_the_dirty_flag() {
    let mut document = document(&["ab"]);
    document.insert(&Position { x: 0, y: 0 }, 'x');
    assert!(document.is_dirty());
    document.mark_clean();
    assert!(!document.is_dirty());
    assert_eq!(lines(&document), vec!["xab"]);
}

#[test]
fn to_bytes_ends_each_line_with_a_line_feed() {
    let document = document(&["ab", "", "h\u{e9}"]);
    assert_eq!(document.to_bytes(), b"ab\n\nh\xc3\xa9\n".to_vec());
    assert_eq!(Document::default().to_bytes(), Vec::<u8>::new());
}
