use git_sql::schema::{contains_bytes, without_python_sections};

fn lines(text: &str) -> Vec<String> {
    text.lines().map(String::from).collect()
}

#[test]
fn sections_are_dropped_with_their_markers() {
    let schema = "CREATE TABLE a();\n-- <PYTHON ONLY>\nCREATE FUNCTION f();\n-- </PYTHON ONLY>\nCREATE TABLE b();";
    assert_eq!(without_python_sections(&lines(schema)), "CREATE TABLE a();\nCREATE TABLE b();\n");
}

#[test]
fn a_schema_without_sections_is_kept() {
    assert_eq!(without_python_sections(&lines("a\nb")), "a\nb\n");
    assert_eq!(without_python_sections(&Vec::new()), "");
}

#[test]
fn an_open_section_runs_to_the_end() {
    assert_eq!(without_python_sections(&lines("a\n<PYTHON ONLY>\nb\nc")), "a\n");
}

#[test]
fn a_closing_marker_outside_a_section_is_dropped() {
    assert_eq!(without_python_sections(&lines("a\n</PYTHON ONLY>\nb")), "a\nb\n");
}

#[test]
fn several_sections() {
    let schema = "<PYTHON ONLY>\nx\n</PYTHON ONLY>\nkeep ü\n<PYTHON ONLY>\n<PYTHON ONLY>\ny\n</PYTHON ONLY>\nz";
    assert_eq!(without_python_sections(&lines(schema)), "keep ü\nz\n");
}

#[test]
fn substring_search() {
    assert!(contains_bytes(b"hello world", b"o w"));
    assert!(contains_bytes(b"hello", b"hello"));
    assert!(contains_bytes(b"hello", b""));
    assert!(contains_bytes(b"", b""));
    assert!(contains_bytes(b"aab", b"ab"));
    assert!(!contains_bytes(b"hello", b"hello!"));
    assert!(!contains_bytes(b"", b"a"));
    assert!(!contains_bytes(b"abc", b"ac"));
    assert!(!contains_bytes(b"</PYTHON ONLY>", b"<PYTHON ONLY>"));
}
