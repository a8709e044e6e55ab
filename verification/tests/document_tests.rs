use miv::Document;
use miv::FileType;
use miv::Position;
use miv::SearchDirection;

fn line(doc: &Document, i: usize) -> String {
    doc.row(i).expect("row exists").contents()
}

#[test]
fn from_text_splits_on_newlines() {
    let doc = Document::from_text("t.txt", "a\nbb");
    assert_eq!(doc.len(), 2);
    assert_eq!(line(&doc, 0), "a");
    assert_eq!(line(&doc, 1), "bb");
    assert!(!doc.is_dirty());
}

#[test]
fn from_text_ignores_one_trailing_newline() {
    let doc = Document::from_text("t.txt", "a\nbb\n");
    assert_eq!(doc.len(), 2);
    assert_eq!(line(&doc, 0), "a");
    assert_eq!(line(&doc, 1), "bb");
}

#[test]
fn from_text_keeps_empty_lines() {
    let doc = Document::from_text("t.txt", "a\n\n");
    assert_eq!(doc.len(), 2);
    assert_eq!(line(&doc, 0), "a");
    assert_eq!(line(&doc, 1), "");
}

#[test]
fn from_text_of_empty_text_is_empty() {
    let doc = Document::from_text("t.txt", "");
    assert_eq!(doc.len(), 0);
    assert!(doc.is_empty());
}

#[test]
fn to_text_writes_one_newline_after_every_row() {
    let doc = Document::from_text("t.txt", "a\nbb");
    assert_eq!(doc.to_text(), "a\nbb\n");
}

#[test]
fn save_load_round_trip_preserves_lines_and_clears_dirty() {
    // Build a buffer holding lines ["a", "bb"] by editing, so it is
    // dirty; "save" it to text, then "reload" that text.
    let mut doc = Document::default();
    doc.insert(&Position::new(0, 0), 'a');
    doc.insert(&Position::new(0, 1), 'b');
    doc.insert(&Position::new(1, 1), 'b');
    assert_eq!(doc.len(), 2);
    assert_eq!(line(&doc, 0), "a");
    assert_eq!(line(&doc, 1), "bb");
    assert!(doc.is_dirty());

    let saved = doc.to_text();
    doc.mark_saved();
    assert!(!doc.is_dirty());

    let reloaded = Document::from_text("t.txt", &saved);
    assert_eq!(reloaded.len(), 2);
    assert_eq!(line(&reloaded, 0), "a");
    assert_eq!(line(&reloaded, 1), "bb");
    assert!(!reloaded.is_dirty());
}

#[test]
fn delete_at_end_of_line_joins_with_next() {
    let mut doc = Document::from_text("t.txt", "ab\ncd");
    doc.delete(&Position::new(2, 0));
    assert_eq!(doc.len(), 1);
    assert_eq!(line(&doc, 0), "abcd");
    assert_eq!(doc.row(0).unwrap().len(), 4);
    assert!(doc.is_dirty());
}

#[test]
fn delete_at_end_of_last_line_removes_nothing() {
    let mut doc = Document::from_text("t.txt", "ab");
    doc.delete(&Position::new(2, 0));
    assert_eq!(doc.len(), 1);
    assert_eq!(line(&doc, 0), "ab");
}

#[test]
fn delete_past_last_row_is_a_no_op() {
    let mut doc = Document::from_text("t.txt", "ab");
    doc.delete(&Position::new(0, 5));
    assert_eq!(line(&doc, 0), "ab");
    assert!(!doc.is_dirty());
}

#[test]
fn delete_mid_line_removes_one_cluster() {
    let mut doc = Document::from_text("t.txt", "abc");
    doc.delete(&Position::new(1, 0));
    assert_eq!(line(&doc, 0), "ac");
}

#[test]
fn newline_then_delete_at_boundary_is_identity() {
    let mut doc = Document::from_text("t.txt", "ab\ncd");
    doc.insert_newline(&Position::new(2, 0));
    assert_eq!(doc.len(), 3);
    assert_eq!(line(&doc, 1), "");
    doc.delete(&Position::new(2, 0));
    assert_eq!(doc.len(), 2);
    assert_eq!(line(&doc, 0), "ab");
    assert_eq!(line(&doc, 1), "cd");
}

#[test]
fn insert_newline_splits_line_at_column() {
    let mut doc = Document::from_text("t.txt", "abcd");
    doc.insert_newline(&Position::new(2, 0));
    assert_eq!(doc.len(), 2);
    assert_eq!(line(&doc, 0), "ab");
    assert_eq!(line(&doc, 1), "cd");
}

#[test]
fn insert_newline_one_past_last_line_appends_empty_row() {
    let mut doc = Document::from_text("t.txt", "ab");
    doc.insert_newline(&Position::new(0, 1));
    assert_eq!(doc.len(), 2);
    assert_eq!(line(&doc, 1), "");
}

#[test]
fn insert_newline_past_the_end_is_a_no_op() {
    let mut doc = Document::from_text("t.txt", "ab");
    doc.insert_newline(&Position::new(0, 2));
    assert_eq!(doc.len(), 1);
}

#[test]
fn insert_one_past_last_line_appends_new_row() {
    let mut doc = Document::from_text("t.txt", "ab");
    doc.insert(&Position::new(0, 1), 'x');
    assert_eq!(doc.len(), 2);
    assert_eq!(line(&doc, 1), "x");
    assert!(doc.is_dirty());
}

#[test]
fn insert_past_the_end_is_a_no_op_and_stays_clean() {
    let mut doc = Document::from_text("t.txt", "ab");
    doc.insert(&Position::new(0, 2), 'x');
    assert_eq!(doc.len(), 1);
    assert!(!doc.is_dirty());
}

#[test]
fn find_forward_two_line_document() {
    let doc = Document::from_text("t.txt", "xxabcyy\nzzz");
    let hit = doc.find("abc", &Position::new(0, 0), SearchDirection::Forward);
    assert_eq!(hit, Some(Position::new(2, 0)));
    let miss = doc.find("abc", &Position::new(3, 0), SearchDirection::Forward);
    assert_eq!(miss, None);
}

#[test]
fn find_forward_crosses_into_later_lines_from_column_zero() {
    let doc = Document::from_text("t.txt", "ab\nab");
    let hit = doc.find("ab", &Position::new(1, 0), SearchDirection::Forward);
    assert_eq!(hit, Some(Position::new(0, 1)));
}

#[test]
fn find_backward_returns_nearest_match_before_cursor() {
    let doc = Document::from_text("t.txt", "ab\nab");
    let hit = doc.find("ab", &Position::new(2, 1), SearchDirection::Backward);
    assert_eq!(hit, Some(Position::new(0, 1)));
    let earlier = doc.find("ab", &Position::new(1, 1), SearchDirection::Backward);
    assert_eq!(earlier, Some(Position::new(0, 0)));
}

#[test]
fn find_backward_from_row_past_the_end_misses() {
    let doc = Document::from_text("t.txt", "ab");
    assert_eq!(doc.find("ab", &Position::new(0, 1), SearchDirection::Backward), None);
}

#[test]
fn find_never_wraps_around_the_document() {
    let doc = Document::from_text("t.txt", "ab\ncd");
    assert_eq!(doc.find("ab", &Position::new(0, 1), SearchDirection::Forward), None);
    assert_eq!(doc.find("cd", &Position::new(0, 0), SearchDirection::Backward), None);
}

#[test]
fn find_row_past_document_misses() {
    let doc = Document::from_text("t.txt", "ab");
    assert_eq!(doc.find("ab", &Position::new(0, 3), SearchDirection::Forward), None);
}

#[test]
fn open_non_existent_remembers_the_path() {
    let doc = Document::open_non_existent("notes.md");
    assert!(doc.is_empty());
    assert!(!doc.is_dirty());
    assert_eq!(doc.file_name, Some("notes.md".to_string()));
    assert_eq!(doc.file_type(), "Markdown");
}

#[test]
fn file_type_follows_the_file_name() {
    let doc = Document::from_text("main.rs", "fn main() {}");
    assert_eq!(doc.file_type(), "Rust");
    let plain = Document::default();
    assert_eq!(plain.file_type(), "Unknown or no file type");
}

#[test]
fn mark_saved_rederives_file_type_from_new_name() {
    let mut doc = Document::from_text("a.txt", "x");
    assert_eq!(doc.file_type(), "Plain text");
    doc.file_name = Some("a.py".to_string());
    doc.mark_saved();
    assert_eq!(doc.file_type(), "Python");
}

#[test]
fn highlight_changes_nothing() {
    let mut doc = Document::from_text("t.txt", "abc");
    doc.highlight(Some("b"));
    assert_eq!(doc.len(), 1);
    assert_eq!(line(&doc, 0), "abc");
    assert!(!doc.is_dirty());
}

#[test]
fn file_type_table_matches_known_extensions() {
    let cases = [
        ("a.rs", "Rust"),
        ("a.toml", "TOML"),
        ("a.md", "Markdown"),
        ("a.txt", "Plain text"),
        ("a.c", "C"),
        ("a.cpp", "C++"),
        ("a.h", "C header"),
        ("a.hpp", "C++ header"),
        ("a.py", "Python"),
        ("a.js", "JavaScript"),
        ("a.html", "HTML"),
        ("a.css", "CSS"),
        ("a.json", "JSON"),
        ("a.sh", "Shell script"),
        ("a.go", "Go"),
        ("a.java", "Java"),
        ("a.unknown", "Unknown or no file type"),
    ];
    for (name, label) in cases {
        assert_eq!(FileType::from(name).name(), label, "extension of {}", name);
    }
}

#[test]
fn file_type_uses_the_last_dot_and_is_case_sensitive() {
    assert_eq!(FileType::from("x.tar.gz").name(), "Unknown or no file type");
    assert_eq!(FileType::from("x.md.rs").name(), "Rust");
    assert_eq!(FileType::from("a.PY").name(), "Unknown or no file type");
    assert_eq!(FileType::from("trailing.").name(), "Unknown or no file type");
    assert_eq!(FileType::from("noext").name(), "Unknown or no file type");
}
