//! The parser: tokens to a tree, by precedence climbing.

pub mod binding_power;
pub mod context;
pub mod operand;
pub mod operator;
pub mod token_tree;

use crate::bvc::{resolve_book, Book};
use crate::lexer::book_token::BookToken;
use crate::lexer::token::Token;
use crate::lexer::{tokens_of, LexError, LexItem, Lexer};
use crate::parser::binding_power::{infix_binding_power, infix_power, BindingPower};
use crate::parser::operator::Op;
use crate::parser::token_tree::Node;
use vstd::prelude::*;

verus! {

/// Why a sequence of tokens is no citation.
#[derive(Debug, PartialEq)]
pub enum ParseError {
    /// The lexer gave an error where the parser needed a token.
    Lex(LexError),
    /// A token that begins no citation stands where one begins.
    InvalidExpressionStart(Token),
    /// A book's literal, with the number in front of it if there is one,
    /// names no book.
    UnresolvedBook { number: Option<u8>, literal: BookToken },
    /// `:` stands behind this node, which is no chapter number.
    NotANumber(Node),
    /// A token that is no operator stands where an operator is needed.
    UnexpectedToken(Token),
    /// An operator that has a binding power, and no meaning yet.
    UnsupportedOperator(Op),
}

/// The operator that `token` is between two operands, if it is one.
pub open spec fn infix_operator(token: Token) -> Option<Op> {
    match token {
        Token::Comma => Some(Op::Select),
        Token::Colon => Some(Op::ChapterOf),
        Token::Dash => Some(Op::Through),
        Token::SemiColon => Some(Op::And),
        _ => None,
    }
}

/// The error for a token that stands where an operator is needed and is none.
pub open spec fn no_operator_error(token: Token) -> ParseError {
    match token {
        Token::FF => ParseError::UnsupportedOperator(Op::Following),
        _ => ParseError::UnexpectedToken(token),
    }
}

/// The node that `op` makes of the node to its left and the node to its
/// right. `:` takes the number to its left for the chapter of what
/// stands to its right, and any other node to its left is an error.
pub open spec fn combine_spec(op: Op, lhs: Node, rhs: Node) -> Result<Node, ParseError> {
    match op {
        Op::And => Ok(Node::And(Box::new(lhs), Box::new(rhs))),
        Op::ChapterOf => match lhs {
            Node::Number(chapter) => Ok(Node::InChapter(chapter, Box::new(rhs))),
            _ => Err(ParseError::NotANumber(lhs)),
        },
        Op::Select => Ok(Node::Select(Box::new(lhs), Box::new(rhs))),
        Op::Through => Ok(Node::Through(Box::new(lhs), Box::new(rhs))),
        Op::BookOf => Err(ParseError::UnsupportedOperator(op)),
        Op::Following => Err(ParseError::UnsupportedOperator(op)),
    }
}

/// The book that begins a citation: `literal`, with `number` in front
/// of it if there is one.
pub open spec fn book_spec(number: Option<u8>, literal: BookToken) -> Result<Book, ParseError> {
    match resolve_book(number, literal) {
        Some(book) => Ok(book),
        None => Err(ParseError::UnresolvedBook { number, literal }),
    }
}

/// The book's literal that stands first among `tokens`, if one does.
pub open spec fn leading_literal(tokens: Seq<LexItem>) -> Option<BookToken> {
    if tokens.len() > 0 {
        match tokens[0] {
            Ok(Token::Book(literal)) => Some(literal),
            _ => None,
        }
    } else {
        None
    }
}

/// The node that a citation within `book` is, from the tokens behind the
/// book's name: they are parsed at the binding power of a book, and what
/// follows them is read as operators on the whole. Returns the node, or
/// the error, and the tokens that are left.
pub open spec fn in_book_spec(book: Book, tokens: Seq<LexItem>, min_bp: u8) -> (
    Result<Node, ParseError>,
    Seq<LexItem>,
)
    decreases tokens.len(), 2int,
{
    let (right, rest) = parse_expression_spec(tokens, BindingPower::Book.spec_value());
    match right {
        Err(e) => (Err(e), rest),
        Ok(node) => if rest.len() <= tokens.len() {
            infix_loop_spec(Node::InBook(book, Box::new(node)), rest, min_bp)
        } else {
            // Parsing never adds tokens: see `lemma_parse_takes_tokens`.
            (Ok(Node::InBook(book, Box::new(node))), rest)
        },
    }
}

/// The node that the tokens give, where only operators that bind to
/// their left with at least `min_bp` are taken. Returns the node, or the
/// error, and the tokens that are left.
///
/// No token gives `Nil`. A book's literal begins a citation within that
/// book. A number followed by a book's literal is the number of the book;
/// any other number stands for itself. Then operators are read.
pub open spec fn parse_expression_spec(tokens: Seq<LexItem>, min_bp: u8) -> (
    Result<Node, ParseError>,
    Seq<LexItem>,
)
    decreases tokens.len(), 0int,
{
    if tokens.len() == 0 {
        (Ok(Node::Nil), tokens)
    } else {
        let rest = tokens.drop_first();
        match tokens[0] {
            Err(e) => (Err(ParseError::Lex(e)), rest),
            Ok(Token::Book(literal)) => match book_spec(None, literal) {
                Err(e) => (Err(e), rest),
                Ok(book) => in_book_spec(book, rest, min_bp),
            },
            Ok(Token::Number(n)) => match leading_literal(rest) {
                Some(literal) => match book_spec(Some(n), literal) {
                    Err(e) => (Err(e), rest.drop_first()),
                    Ok(book) => in_book_spec(book, rest.drop_first(), min_bp),
                },
                None => infix_loop_spec(Node::Number(n), rest, min_bp),
            },
            Ok(token) => (Err(ParseError::InvalidExpressionStart(token)), rest),
        }
    }
}

/// The node that `lhs` becomes when the operators that follow it are
/// applied, as long as they bind to their left with at least `min_bp`.
/// Returns the node, or the error, and the tokens that are left.
///
/// A token that is no operator is an error where an operator is needed:
/// a number too, so that no node that was parsed is ever dropped.
pub open spec fn infix_loop_spec(lhs: Node, tokens: Seq<LexItem>, min_bp: u8) -> (
    Result<Node, ParseError>,
    Seq<LexItem>,
)
    decreases tokens.len(), 1int,
{
    if tokens.len() == 0 {
        (Ok(lhs), tokens)
    } else {
        match tokens[0] {
            Err(e) => (Err(ParseError::Lex(e)), tokens),
            Ok(token) => match infix_operator(token) {
                None => (Err(no_operator_error(token)), tokens),
                Some(op) => if infix_power(op).0 < min_bp {
                    (Ok(lhs), tokens)
                } else {
                    let (right, rest) = parse_expression_spec(
                        tokens.drop_first(),
                        infix_power(op).1,
                    );
                    match right {
                        Err(e) => (Err(e), rest),
                        Ok(rhs) => match combine_spec(op, lhs, rhs) {
                            Err(e) => (Err(e), rest),
                            Ok(node) => if rest.len() < tokens.len() {
                                infix_loop_spec(node, rest, min_bp)
                            } else {
                                // Parsing never adds tokens: see `lemma_parse_takes_tokens`.
                                (Ok(node), rest)
                            },
                        },
                    }
                },
            },
        }
    }
}

/// The tree that the citation `text` is, or why it is none.
pub open spec fn parse_text(text: Seq<char>) -> Result<Node, ParseError> {
    parse_expression_spec(tokens_of(text), BindingPower::Minimum.spec_value()).0
}

/// Parsing leaves no more tokens than it was given, and so does reading
/// operators.
pub proof fn lemma_parse_takes_tokens(lhs: Node, tokens: Seq<LexItem>, min_bp: u8)
    ensures
        parse_expression_spec(tokens, min_bp).1.len() <= tokens.len(),
        infix_loop_spec(lhs, tokens, min_bp).1.len() <= tokens.len(),
    decreases tokens.len(),
{
    lemma_parse_expression_takes_tokens(tokens, min_bp);
    lemma_infix_loop_takes_tokens(lhs, tokens, min_bp);
}

/// Parsing within a book leaves no more tokens than it was given.
proof fn lemma_in_book_takes_tokens(book: Book, tokens: Seq<LexItem>, min_bp: u8)
    ensures
        in_book_spec(book, tokens, min_bp).1.len() <= tokens.len(),
    decreases tokens.len(), 2int,
{
    let (right, rest) = parse_expression_spec(tokens, BindingPower::Book.spec_value());
    lemma_parse_expression_takes_tokens(tokens, BindingPower::Book.spec_value());
    if let Ok(node) = right {
        lemma_infix_loop_takes_tokens(Node::InBook(book, Box::new(node)), rest, min_bp);
    }
}

/// Parsing a citation leaves no more tokens than it was given.
proof fn lemma_parse_expression_takes_tokens(tokens: Seq<LexItem>, min_bp: u8)
    ensures
        parse_expression_spec(tokens, min_bp).1.len() <= tokens.len(),
    decreases tokens.len(), 0int,
{
    if tokens.len() > 0 {
        let rest = tokens.drop_first();
        match tokens[0] {
            Err(e) => {},
            Ok(Token::Book(literal)) => {
                if let Ok(book) = book_spec(None, literal) {
                    lemma_in_book_takes_tokens(book, rest, min_bp);
                }
            },
            Ok(Token::Number(n)) => {
                match leading_literal(rest) {
                    Some(literal) => {
                        if let Ok(book) = book_spec(Some(n), literal) {
                            lemma_in_book_takes_tokens(book, rest.drop_first(), min_bp);
                        }
                    },
                    None => {
                        lemma_infix_loop_takes_tokens(Node::Number(n), rest, min_bp);
                    },
                }
            },
            Ok(token) => {},
        }
    }
}

/// Reading operators leaves no more tokens than it was given.
proof fn lemma_infix_loop_takes_tokens(lhs: Node, tokens: Seq<LexItem>, min_bp: u8)
    ensures
        infix_loop_spec(lhs, tokens, min_bp).1.len() <= tokens.len(),
    decreases tokens.len(), 1int,
{
    if tokens.len() > 0 {
        match tokens[0] {
            Err(e) => {},
            Ok(token) => {
                if let Some(op) = infix_operator(token) {
                    if infix_power(op).0 >= min_bp {
                        let (right, rest) = parse_expression_spec(
                            tokens.drop_first(),
                            infix_power(op).1,
                        );
                        lemma_parse_expression_takes_tokens(tokens.drop_first(), infix_power(op).1);
                        if let Ok(rhs) = right {
                            if let Ok(node) = combine_spec(op, lhs, rhs) {
                                lemma_infix_loop_takes_tokens(node, rest, min_bp);
                            }
                        }
                    }
                }
            },
        }
    }
}

/// Makes one node of the node to the left of `op` and the node to its right.
pub fn combine(op: Op, lhs: Node, rhs: Node) -> (r: Result<Node, ParseError>)
    ensures
        r == combine_spec(op, lhs, rhs),
{
    match op {
        Op::And => Ok(Node::And(Box::new(lhs), Box::new(rhs))),
        Op::ChapterOf => match lhs {
            Node::Number(chapter) => Ok(Node::InChapter(chapter, Box::new(rhs))),
            other => Err(ParseError::NotANumber(other)),
        },
        Op::BookOf => Err(ParseError::UnsupportedOperator(op)),
        Op::Following => Err(ParseError::UnsupportedOperator(op)),
        Op::Select => Ok(Node::Select(Box::new(lhs), Box::new(rhs))),
        Op::Through => Ok(Node::Through(Box::new(lhs), Box::new(rhs))),
    }
}

/// Finds the book that `literal` names, with `number` in front of it if
/// there is one.
pub fn resolve(number: Option<u8>, literal: BookToken) -> (r: Result<Book, ParseError>)
    ensures
        r == book_spec(number, literal),
{
    match Book::try_from((number, &literal)) {
        Ok(book) => Ok(book),
        Err(_) => Err(ParseError::UnresolvedBook { number, literal }),
    }
}

/// A parser over one text.
pub struct Parser<'de> {
    lexer: Lexer<'de>,
}

impl<'de> Parser<'de> {
    /// The tokens and lexer errors that the parser has yet to read.
    pub closed spec fn remaining(&self) -> Seq<LexItem> {
        self.lexer.remaining()
    }

    /// A parser at the start of `input`.
    pub fn new(input: &'de str) -> (r: Self)
        ensures
            r.remaining() == tokens_of(input@),
    {
        Parser { lexer: Lexer::new(input) }
    }

    /// Parses the tokens that are left as one citation.
    pub fn parse(&mut self) -> (r: Result<Node, ParseError>)
        ensures
            r == parse_expression_spec(
                old(self).remaining(),
                BindingPower::Minimum.spec_value(),
            ).0,
            r is Ok ==> final(self).remaining() == parse_expression_spec(
                old(self).remaining(),
                BindingPower::Minimum.spec_value(),
            ).1,
            final(self).remaining().len() <= old(self).remaining().len(),
    {
        self.parse_expression(BindingPower::Minimum.value())
    }

    /// Takes the next token, `None` at the end of the text.
    fn current(&mut self) -> (r: Result<Option<Token>, ParseError>)
        ensures
            old(self).remaining().len() == 0 ==> r == Ok::<Option<Token>, ParseError>(None)
                && final(self).remaining().len() == 0,
            old(self).remaining().len() > 0 ==> final(self).remaining() == old(
                self,
            ).remaining().drop_first() && r == (match old(self).remaining()[0] {
                Ok(token) => Ok::<Option<Token>, ParseError>(Some(token)),
                Err(e) => Err::<Option<Token>, ParseError>(ParseError::Lex(e)),
            }),
    {
        match self.lexer.next() {
            None => Ok(None),
            Some(Ok(token)) => Ok(Some(token)),
            Some(Err(e)) => Err(ParseError::Lex(e)),
        }
    }

    /// Looks at the next token without taking it.
    fn peek(&mut self) -> (r: Option<LexItem>)
        ensures
            final(self).remaining() == old(self).remaining(),
            r == (if old(self).remaining().len() > 0 {
                Some(old(self).remaining()[0])
            } else {
                None
            }),
    {
        match self.lexer.peek() {
            Some(item) => Some(*item),
            None => None,
        }
    }

    /// Parses what stands behind the name of `book`, and the operators
    /// that follow.
    fn parse_in_book(&mut self, book: Book, min_bp: u8) -> (r: Result<
        Node,
        ParseError,
    >)
        ensures
            r == in_book_spec(book, old(self).remaining(), min_bp).0,
            r is Ok ==> final(self).remaining() == in_book_spec(
                book,
                old(self).remaining(),
                min_bp,
            ).1,
            final(self).remaining().len() <= old(self).remaining().len(),
        decreases old(self).remaining().len(), 2int,
    {
        let right = self.parse_expression(BindingPower::Book.value())?;
        self.parse_operators(Node::InBook(book, Box::new(right)), min_bp)
    }

    /// Parses one citation, taking only the operators that bind to their
    /// left with at least `min_bp`.
    fn parse_expression(&mut self, min_bp: u8) -> (r: Result<
        Node,
        ParseError,
    >)
        ensures
            r == parse_expression_spec(old(self).remaining(), min_bp).0,
            r is Ok ==> final(self).remaining() == parse_expression_spec(
                old(self).remaining(),
                min_bp,
            ).1,
            final(self).remaining().len() <= old(self).remaining().len(),
        decreases old(self).remaining().len(), 0int,
    {
        let ghost tokens = self.remaining();
        let current = match self.current()? {
            Some(token) => token,
            None => {
                return Ok(Node::Nil);
            },
        };
        match current {
            Token::Book(literal) => {
                let book = resolve(None, literal)?;
                self.parse_in_book(book, min_bp)
            },
            Token::Number(n) => {
                let literal = match self.peek() {
                    Some(Ok(Token::Book(literal))) => Some(literal),
                    _ => None,
                };
                match literal {
                    Some(literal) => {
                        let _ = self.lexer.next();
                        let book = resolve(Some(n), literal)?;
                        self.parse_in_book(book, min_bp)
                    },
                    None => self.parse_operators(Node::Number(n), min_bp),
                }
            },
            other => Err(ParseError::InvalidExpressionStart(other)),
        }
    }

    /// Applies to `lhs` the operators that follow it, as long as they
    /// bind to their left with at least `min_bp`.
    fn parse_operators(&mut self, lhs: Node, min_bp: u8) -> (r: Result<
        Node,
        ParseError,
    >)
        ensures
            r == infix_loop_spec(lhs, old(self).remaining(), min_bp).0,
            r is Ok ==> final(self).remaining() == infix_loop_spec(
                lhs,
                old(self).remaining(),
                min_bp,
            ).1,
            final(self).remaining().len() <= old(self).remaining().len(),
        decreases old(self).remaining().len(), 1int,
    {
        let ghost tokens = self.remaining();
        let token = match self.peek() {
            None => {
                return Ok(lhs);
            },
            Some(Err(e)) => {
                return Err(ParseError::Lex(e));
            },
            Some(Ok(token)) => token,
        };
        let operator = match token {
            Token::Comma => Op::Select,
            Token::Colon => Op::ChapterOf,
            Token::Dash => Op::Through,
            Token::SemiColon => Op::And,
            Token::FF => {
                return Err(ParseError::UnsupportedOperator(Op::Following));
            },
            other => {
                return Err(ParseError::UnexpectedToken(other));
            },
        };
        let (l_bp, r_bp) = infix_binding_power(operator);
        if l_bp < min_bp {
            return Ok(lhs);
        }
        let _ = self.lexer.next();
        let rhs = self.parse_expression(r_bp)?;
        let node = combine(operator, lhs, rhs)?;
        self.parse_operators(node, min_bp)
    }
}

} // verus!
