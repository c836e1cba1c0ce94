use std::path::PathBuf;
use winapi_gen::header_file::{HeaderError, HeaderFile};
use winapi_gen::file::FileError;
use winapi_gen::parser::{LineCursor, ParsedLine};

#[test]
fn header_file_at_an_existing_path() {
    let h = HeaderFile::new(PathBuf::from("um/iphlpapi.h"), true).unwrap();
    assert_eq!(h.file_path, PathBuf::from("um/iphlpapi.h"));
    assert!(h.file_contents.is_none());
}

#[test]
fn header_file_at_a_missing_path() {
    match HeaderFile::new(PathBuf::from("nowhere.h"), false) {
        Err(HeaderError::MissingHeaderFile(p)) => assert_eq!(p, PathBuf::from("nowhere.h")),
        _ => panic!("a missing header file must be refused"),
    }
}

#[test]
fn header_parse_needs_contents() {
    let mut h = HeaderFile::new(PathBuf::from("a.h"), true).unwrap();
    assert!(matches!(h.parse(), Err(HeaderError::ContentsNotRead)));
    h.file_contents = Some("/* a */\n#define A 1\n".to_string());
    assert!(h.parse().is_ok());
    assert_eq!(h.file_contents.as_deref(), Some("/* a */\n#define A 1\n"));
}

#[test]
fn parsed_line_holds_its_buffer() {
    let text = String::from("int a;\n");
    let line = ParsedLine { line_num: 4, bytes_read: 7, buffer: &text };
    assert_eq!(line.line_num, 4);
    assert_eq!(line.bytes_read, 7);
    assert_eq!(line.buffer, "int a;\n");
}

#[test]
fn header_parses_once_contents_are_set() {
    let mut h = HeaderFile::new(PathBuf::from("b.h"), true).unwrap();
    assert!(h.parse().is_err());
    h.set_contents("int x;\n".to_string());
    assert_eq!(h.file_path, PathBuf::from("b.h"));
    assert_eq!(h.file_contents.as_deref(), Some("int x;\n"));
    assert!(h.parse().is_ok());
    assert!(h.parse().is_ok());
}

#[test]
fn line_cursor_numbers_lines_from_zero() {
    assert!(matches!(
        LineCursor::new(PathBuf::from("missing.h"), false),
        Err(FileError::Missing)
    ));
    let mut c = LineCursor::new(PathBuf::from("c.h"), true).unwrap();
    assert_eq!(c.line_num, 0);
    assert!(c.buffer.is_empty());
    assert_eq!(c.record_line("first\n"), 0);
    assert_eq!(c.record_line("second\n"), 1);
    assert_eq!(c.line_num, 2);
    assert_eq!(c.buffer, "first\nsecond\n");
    assert_eq!(c.file_path, PathBuf::from("c.h"));
}
