//! Tokens, the places in the source where they stand, and the spans that tie
//! the two together.

use vstd::prelude::*;

verus! {

/// A position in the source: a line and a column, both counted from one.
#[derive(Clone, Copy, Debug, PartialEq, Eq, Structural)]
pub struct Location {
    pub line: usize,
    pub column: usize,
}

impl Location {
    /// The location one column to the right, on the same line.
    pub open spec fn next_column(self) -> Location {
        Location { line: self.line, column: (self.column + 1) as usize }
    }

    /// The location one column to the right, on the same line.
    pub fn add_column(self) -> (r: Location)
        requires
            self.column < usize::MAX,
        ensures
            r == self.next_column(),
            r.line == self.line,
            r.column == self.column + 1,
    {
        Location { line: self.line, column: self.column + 1 }
    }
}

/// One of the pieces the input is broken into.
///
/// Numbers keep their value as the IEEE-754 bit pattern of an `f32`
/// (`f32::to_bits`), so that a token can be compared and moved around
/// without floating-point arithmetic.
#[derive(PartialEq, Debug, Clone)]
pub enum Token {
    /// An identifier.
    Ident(String),
    /// An at-keyword; the value does not include the `@` marker.
    AtKeyword(String),
    /// A hash with the type flag set to "unrestricted"; the value does not
    /// include the `#` marker.
    Hash(String),
    /// A hash that is a valid ID selector; the value does not include the `#`
    /// marker.
    IDHash(String),
    /// A quoted string; the value does not include the quotes.
    QuotedString(String),
    /// An unquoted url; the value does not include the `url(` `)` markers.
    UnquotedUrl(String),
    /// A delimiter.
    Delim(char),
    /// A number.
    Number {
        /// Whether the number had a `+` or `-` sign.
        has_sign: bool,
        /// The value, as the bit pattern of an `f32`.
        value_bits: u32,
        /// The value as an integer, when the source had no fractional part.
        int_value: Option<i32>,
    },
    /// A percentage.
    Percentage {
        /// Whether the number had a `+` or `-` sign.
        has_sign: bool,
        /// The value divided by 100, as the bit pattern of an `f32`.
        unit_value_bits: u32,
        /// The value as an integer (not divided by 100), when the source had
        /// no fractional part.
        int_value: Option<i32>,
    },
    /// A number followed by a unit.
    Dimension {
        /// Whether the number had a `+` or `-` sign.
        has_sign: bool,
        /// The value, as the bit pattern of an `f32`.
        value_bits: u32,
        /// The value as an integer, when the source had no fractional part.
        int_value: Option<i32>,
        /// The unit, e.g. "px" in `12px`.
        unit: String,
    },
    /// White space.
    WhiteSpace(String),
    /// A comment.
    ///
    /// The value does not include the `/*` `*/` markers.
    Comment(String),
    /// `:`
    Colon,
    /// `;`
    Semicolon,
    /// `,`
    Comma,
    /// `~=`
    IncludeMatch,
    /// `|=`
    DashMatch,
    /// `^=`
    PrefixMatch,
    /// `$=`
    SuffixMatch,
    /// `*=`
    SubstringMatch,
    /// `<!--`
    CDO,
    /// `-->`
    CDC,
    /// A function name; the value does not include the `(` marker.
    Function(String),
    /// `(`
    ParenthesisBlock,
    /// `[`
    SquareBracketBlock,
    /// `{`
    CurlyBracketBlock,
    /// A malformed url. This token always indicates a parse error.
    BadUrl(String),
    /// A malformed string. This token always indicates a parse error.
    BadString(String),
    /// `)`, unmatched: a parse error.
    CloseParenthesis,
    /// `]`, unmatched: a parse error.
    CloseSquareBracket,
    /// `}`, unmatched: a parse error.
    CloseCurlyBracket,
}

/// The tokens that stand for a parse error: the malformed url and string,
/// and the three closing brackets, which are unmatched wherever they appear
/// on their own.
pub open spec fn spec_is_parse_error(t: Token) -> bool {
    ||| t is BadUrl
    ||| t is BadString
    ||| t is CloseParenthesis
    ||| t is CloseSquareBracket
    ||| t is CloseCurlyBracket
}

impl Token {
    /// Whether this token represents a parse error.
    pub fn is_parse_error(&self) -> (r: bool)
        ensures
            r == spec_is_parse_error(*self),
            r == (*self is BadUrl || *self is BadString || *self is CloseParenthesis
                || *self is CloseSquareBracket || *self is CloseCurlyBracket),
    {
        match self {
            Token::BadUrl(_) | Token::BadString(_) | Token::CloseParenthesis
            | Token::CloseSquareBracket | Token::CloseCurlyBracket => true,
            _ => false,
        }
    }
}

/// Exactly five kinds of token are parse errors: `BadUrl`, `BadString`,
/// `CloseParenthesis`, `CloseSquareBracket` and `CloseCurlyBracket`. Every
/// other token, a quoted string, an identifier or a comment among them, is
/// not.
pub proof fn law_parse_errors_are_five(t: Token)
    ensures
        spec_is_parse_error(t) <==> (t is BadUrl || t is BadString || t is CloseParenthesis
            || t is CloseSquareBracket || t is CloseCurlyBracket),
        t is QuotedString ==> !spec_is_parse_error(t),
        t is Ident ==> !spec_is_parse_error(t),
        t is Comment ==> !spec_is_parse_error(t),
{
}

/// A token together with the locations of its first and last character.
#[derive(Debug, Clone, PartialEq)]
pub struct TokenSpan {
    pub start: Location,
    pub end: Location,
    pub token: Token,
}

} // verus!
