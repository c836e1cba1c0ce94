use winapi_gen::file::{check_file_exists, FileError, FILE_SIZE_LIMIT};
use winapi_gen::token::{Location, Token};

#[test]
fn parse_errors_are_the_bad_and_closing_tokens() {
    assert!(Token::BadUrl("u".to_string()).is_parse_error());
    assert!(Token::BadString("s".to_string()).is_parse_error());
    assert!(Token::CloseParenthesis.is_parse_error());
    assert!(Token::CloseSquareBracket.is_parse_error());
    assert!(Token::CloseCurlyBracket.is_parse_error());
}

#[test]
fn other_tokens_are_not_parse_errors() {
    assert!(!Token::Comment("/* c */".to_string()).is_parse_error());
    assert!(!Token::Ident("a".to_string()).is_parse_error());
    assert!(!Token::ParenthesisBlock.is_parse_error());
    assert!(!Token::SquareBracketBlock.is_parse_error());
    assert!(!Token::CurlyBracketBlock.is_parse_error());
    assert!(!Token::Colon.is_parse_error());
    assert!(!Token::Delim('*').is_parse_error());
    assert!(!Token::Number { has_sign: true, value_bits: (-1.5f32).to_bits(), int_value: None }
        .is_parse_error());
    assert!(!Token::Dimension {
        has_sign: false,
        value_bits: 12.0f32.to_bits(),
        int_value: Some(12),
        unit: "px".to_string(),
    }
    .is_parse_error());
}

#[test]
fn add_column_moves_one_column_right() {
    let l = Location { line: 3, column: 9 };
    assert_eq!(l.add_column(), Location { line: 3, column: 10 });
}

#[test]
fn missing_file_is_refused() {
    assert_eq!(check_file_exists(None), Err(FileError::Missing));
}

#[test]
fn file_at_the_limit_is_accepted() {
    assert_eq!(FILE_SIZE_LIMIT, 100_000);
    assert_eq!(check_file_exists(Some(0)), Ok(()));
    assert_eq!(check_file_exists(Some(100_000)), Ok(()));
}

#[test]
fn file_over_the_limit_is_refused() {
    assert_eq!(
        check_file_exists(Some(100_001)),
        Err(FileError::TooBig { size: 100_001, limit: 100_000 })
    );
}
