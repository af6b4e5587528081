//! Tokens: the words and marks of a citation.

use crate::lexer::book_token::BookToken;
use crate::text::{decimal, u8_to_string};
use vstd::prelude::*;
use vstd::string::StringExecFns;

verus! {

/// One word or mark of a citation.
#[derive(Debug, Clone, Copy, PartialEq, Eq, Structural)]
pub enum Token {
    /// The name of a book, or of a series of books.
    Book(BookToken),
    /// `:` between a chapter and its verses.
    Colon,
    /// `,` between the verses of a list.
    Comma,
    /// `-` between the two ends of a range.
    Dash,
    /// `ff`: and the verses that follow.
    FF,
    /// A number: of a book, a chapter or a verse.
    Number(u8),
    /// `.`
    Period,
    /// `;` between citations.
    SemiColon,
    /// The letter of a part of a verse.
    Subverse,
}

impl Token {
    /// How the token is printed: its kind in capitals, then its value or `null`.
    pub open spec fn display(self) -> Seq<char> {
        match self {
            Token::Book(b) => "BOOK "@ + b.text(),
            Token::Comma => "COMMA null"@,
            Token::Colon => "COLON null"@,
            Token::Dash => "DASH null"@,
            Token::FF => "FF null"@,
            Token::Number(n) => "NUMBER "@ + decimal(n as nat),
            Token::Period => "PERIOD null"@,
            Token::SemiColon => "SEMICOLON null"@,
            Token::Subverse => "SUBVERSE null"@,
        }
    }

    /// Whether the lexer ever gives this token.
    pub open spec fn is_written(self) -> bool {
        !(self is Period) && !(self is Subverse)
    }

    /// The text that stands for the token in a citation. Tokens that the
    /// lexer never gives have none, and get the empty text.
    pub open spec fn text(self) -> Seq<char> {
        match self {
            Token::Book(b) => b.text(),
            Token::Comma => ","@,
            Token::Colon => ":"@,
            Token::Dash => "-"@,
            Token::FF => "ff"@,
            Token::Number(n) => decimal(n as nat),
            Token::SemiColon => ";"@,
            Token::Period => Seq::<char>::empty(),
            Token::Subverse => Seq::<char>::empty(),
        }
    }

    /// The token as it is printed.
    pub fn to_string(&self) -> (r: String)
        ensures
            r@ == self.display(),
    {
        match self {
            Token::Book(b) => {
                let mut r = String::from_str("BOOK ");
                r.append(b.as_str());
                r
            },
            Token::Comma => String::from_str("COMMA null"),
            Token::Colon => String::from_str("COLON null"),
            Token::Dash => String::from_str("DASH null"),
            Token::FF => String::from_str("FF null"),
            Token::Number(n) => {
                let mut r = String::from_str("NUMBER ");
                r.append(u8_to_string(*n).as_str());
                r
            },
            Token::Period => String::from_str("PERIOD null"),
            Token::SemiColon => String::from_str("SEMICOLON null"),
            Token::Subverse => String::from_str("SUBVERSE null"),
        }
    }

    /// The text that stands for the token in a citation.
    pub fn text_string(&self) -> (r: String)
        ensures
            r@ == self.text(),
    {
        match self {
            Token::Book(b) => b.to_string(),
            Token::Comma => String::from_str(","),
            Token::Colon => String::from_str(":"),
            Token::Dash => String::from_str("-"),
            Token::FF => String::from_str("ff"),
            Token::Number(n) => u8_to_string(*n),
            Token::SemiColon => String::from_str(";"),
            Token::Period => String::new(),
            Token::Subverse => String::new(),
        }
    }
}

} // verus!
