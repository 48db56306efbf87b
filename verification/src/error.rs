//! The errors of parsing and rendering.
use vstd::prelude::*;

verus! {

/// What is wrong with a tag that does not parse.
#[derive(Debug, Clone, Copy, PartialEq, Eq, Structural)]
pub enum ParseErrorKind {
    /// The text ends inside a tag, or the closing marker is missing behind a call.
    UnterminatedTag,
    /// The text ends, or the tag closes, before the `)` of a call.
    UnbalancedParentheses,
    /// The text ends inside a string literal.
    UnbalancedQuotes,
    /// An argument's name is not followed by `:`, or its value by `,` or `)`.
    InvalidSeparator,
    /// A name is expected and the character found cannot start one, or the name
    /// of a variable is followed by something other than the closing marker.
    InvalidName,
    /// An argument's value is neither a string literal nor a name.
    InvalidValue,
}

/// Why a template could not be parsed or rendered.
#[derive(Debug, Clone, PartialEq, Eq)]
pub enum Error {
    /// The template is malformed.
    ParseError(ParseErrorKind),
    /// A variable that the template refers to has no value.
    VariableNotFound(String),
    /// A function failed, or could not be run; the text says why.
    RenderError(String),
}

/// An `Error` as a mathematical value.
pub enum ErrorView {
    ParseError(ParseErrorKind),
    VariableNotFound(Seq<char>),
    RenderError(Seq<char>),
}

impl View for Error {
    type V = ErrorView;

    open spec fn view(&self) -> ErrorView {
        match self {
            Error::ParseError(kind) => ErrorView::ParseError(*kind),
            Error::VariableNotFound(name) => ErrorView::VariableNotFound(name@),
            Error::RenderError(message) => ErrorView::RenderError(message@),
        }
    }
}

/// The words for a kind of parse error.
pub open spec fn kind_text(kind: ParseErrorKind) -> Seq<char> {
    match kind {
        ParseErrorKind::UnterminatedTag => "unterminated tag"@,
        ParseErrorKind::UnbalancedParentheses => "unbalanced parentheses"@,
        ParseErrorKind::UnbalancedQuotes => "unbalanced quotes"@,
        ParseErrorKind::InvalidSeparator => "invalid argument separator"@,
        ParseErrorKind::InvalidName => "invalid name"@,
        ParseErrorKind::InvalidValue => "invalid argument value"@,
    }
}

/// The message of an error: what it is, then what it is about.
pub open spec fn error_text(error: ErrorView) -> Seq<char> {
    match error {
        ErrorView::ParseError(kind) => "Parse Error: "@ + kind_text(kind),
        ErrorView::VariableNotFound(name) => "Variable not found: "@ + name,
        ErrorView::RenderError(message) => "Render Error: "@ + message,
    }
}

impl ParseErrorKind {
    /// The words for this kind of error.
    pub fn as_str(&self) -> (s: &'static str)
        ensures
            s@ == kind_text(*self),
    {
        match self {
            ParseErrorKind::UnterminatedTag => "unterminated tag",
            ParseErrorKind::UnbalancedParentheses => "unbalanced parentheses",
            ParseErrorKind::UnbalancedQuotes => "unbalanced quotes",
            ParseErrorKind::InvalidSeparator => "invalid argument separator",
            ParseErrorKind::InvalidName => "invalid name",
            ParseErrorKind::InvalidValue => "invalid argument value",
        }
    }
}

impl Error {
    /// The message of this error.
    pub fn to_string(&self) -> (s: String)
        ensures
            s@ == error_text(self@),
    {
        match self {
            Error::ParseError(kind) => {
                let mut s = String::from_str("Parse Error: ");
                s.append(kind.as_str());
                s
            },
            Error::VariableNotFound(name) => {
                let mut s = String::from_str("Variable not found: ");
                s.append(name.as_str());
                s
            },
            Error::RenderError(message) => {
                let mut s = String::from_str("Render Error: ");
                s.append(message.as_str());
                s
            },
        }
    }
}

} // verus!
