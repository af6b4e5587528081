use scripture_ref::bvc::Book;
use scripture_ref::lexer::book_token::BookToken;
use scripture_ref::lexer::token::Token;
use scripture_ref::lexer::LexError;
use scripture_ref::parser::binding_power::{
    infix_binding_power, postfix_binding_power, BindingPower,
};
use scripture_ref::parser::operand::Atom;
use scripture_ref::parser::operator::Op;
use scripture_ref::parser::token_tree::Node;
use scripture_ref::parser::{combine, resolve, ParseError, Parser};

fn number(n: u8) -> Box<Node> {
    Box::new(Node::Number(n))
}

fn parse(text: &str) -> Result<Node, ParseError> {
    Parser::new(text).parse()
}

#[test]
fn parse_book_of_operator() {
    let test_cases = vec![
        (
            "1 kings",
            Book::FirstKings,
            "with named with a numbered prefix",
        ),
        ("Psalms", Book::Psalms, "with a single word name"),
    ];
    for (reference, book, case_desc) in test_cases {
        let mut parser = Parser::new(reference);
        let parsed = parser
            .parse()
            .unwrap_or_else(|_| panic!("failed to handle books {}", case_desc));
        assert_eq!(parsed, Node::InBook(book, Box::new(Node::Nil)));
    }
}

#[test]
fn no_text_is_no_citation() {
    assert_eq!(parse(""), Ok(Node::Nil));
    assert_eq!(parse("   "), Ok(Node::Nil));
}

#[test]
fn a_number_before_a_book_is_the_number_of_the_book() {
    assert_eq!(parse("1 Kings"), Ok(Node::InBook(Book::FirstKings, Box::new(Node::Nil))));
    assert_eq!(parse("3 John"), Ok(Node::InBook(Book::ThirdJohn, Box::new(Node::Nil))));
    assert_eq!(parse("John"), Ok(Node::InBook(Book::John, Box::new(Node::Nil))));
    assert_eq!(parse("7"), Ok(Node::Number(7)));
}

#[test]
fn the_chapter_behind_a_book_is_not_passed_over() {
    assert_eq!(
        parse("Genesis 1:1"),
        Ok(Node::InBook(Book::Genesis, Box::new(Node::InChapter(1, number(1)))))
    );
    assert_eq!(
        parse("1 Kings 2:24"),
        Ok(Node::InBook(Book::FirstKings, Box::new(Node::InChapter(2, number(24)))))
    );
    assert_eq!(parse("Genesis 5"), Ok(Node::InBook(Book::Genesis, number(5))));
}

#[test]
fn operators_group_by_their_binding_power() {
    assert_eq!(
        parse("John 1:1-3;8"),
        Ok(Node::InBook(
            Book::John,
            Box::new(Node::And(
                Box::new(Node::InChapter(1, Box::new(Node::Through(number(1), number(3))))),
                number(8),
            )),
        ))
    );
    assert_eq!(
        parse("1:2,3-4"),
        Ok(Node::InChapter(
            1,
            Box::new(Node::Select(number(2), Box::new(Node::Through(number(3), number(4))))),
        ))
    );
    assert_eq!(
        parse("1:2-3,4"),
        Ok(Node::InChapter(
            1,
            Box::new(Node::Select(Box::new(Node::Through(number(2), number(3))), number(4))),
        ))
    );
    assert_eq!(
        parse("1;2;3"),
        Ok(Node::And(Box::new(Node::And(number(1), number(2))), number(3)))
    );
    assert_eq!(
        parse("2:1;1:1"),
        Ok(Node::And(Box::new(Node::InChapter(2, number(1))), Box::new(Node::InChapter(1, number(1)))))
    );
}

#[test]
fn an_operator_with_nothing_behind_it_gets_nil() {
    assert_eq!(parse("1:"), Ok(Node::InChapter(1, Box::new(Node::Nil))));
    assert_eq!(parse("1-"), Ok(Node::Through(number(1), Box::new(Node::Nil))));
}

#[test]
fn a_number_where_an_operator_is_needed_is_an_error() {
    assert_eq!(parse("1 2"), Err(ParseError::UnexpectedToken(Token::Number(2))));
    assert_eq!(parse("1 2 3"), Err(ParseError::UnexpectedToken(Token::Number(2))));
    assert_eq!(parse("1:2 3"), Err(ParseError::UnexpectedToken(Token::Number(3))));
    assert_eq!(parse("1:2 3:4"), Err(ParseError::UnexpectedToken(Token::Number(3))));
    assert_eq!(parse("Genesis 1:1 2"), Err(ParseError::UnexpectedToken(Token::Number(2))));
    assert_eq!(parse("1-2 3"), Err(ParseError::UnexpectedToken(Token::Number(3))));
}

#[test]
fn a_mark_cannot_begin_a_citation() {
    assert_eq!(parse(":1"), Err(ParseError::InvalidExpressionStart(Token::Colon)));
    assert_eq!(parse(","), Err(ParseError::InvalidExpressionStart(Token::Comma)));
    assert_eq!(parse("-"), Err(ParseError::InvalidExpressionStart(Token::Dash)));
    assert_eq!(parse(";"), Err(ParseError::InvalidExpressionStart(Token::SemiColon)));
    assert_eq!(parse("ff"), Err(ParseError::InvalidExpressionStart(Token::FF)));
    assert_eq!(parse("1;;"), Err(ParseError::InvalidExpressionStart(Token::SemiColon)));
}

#[test]
fn a_chapter_must_be_a_number() {
    assert_eq!(
        parse("1-2:3"),
        Err(ParseError::NotANumber(Node::Through(number(1), number(2))))
    );
    assert_eq!(
        combine(Op::ChapterOf, Node::Nil, Node::Number(1)),
        Err(ParseError::NotANumber(Node::Nil))
    );
    assert_eq!(
        combine(Op::ChapterOf, Node::Number(4), Node::Number(1)),
        Ok(Node::InChapter(4, number(1)))
    );
    assert_eq!(
        combine(Op::Through, Node::Number(4), Node::Number(6)),
        Ok(Node::Through(number(4), number(6)))
    );
    assert_eq!(
        combine(Op::Select, Node::Number(4), Node::Nil),
        Ok(Node::Select(number(4), Box::new(Node::Nil)))
    );
    assert_eq!(
        combine(Op::And, Node::Nil, Node::Nil),
        Ok(Node::And(Box::new(Node::Nil), Box::new(Node::Nil)))
    );
    assert_eq!(
        combine(Op::BookOf, Node::Nil, Node::Nil),
        Err(ParseError::UnsupportedOperator(Op::BookOf))
    );
    assert_eq!(
        combine(Op::Following, Node::Nil, Node::Nil),
        Err(ParseError::UnsupportedOperator(Op::Following))
    );
}

#[test]
fn a_literal_with_the_wrong_number_names_no_book() {
    assert_eq!(
        parse("2 Kings 1:1"),
        Err(ParseError::UnresolvedBook { number: Some(2), literal: BookToken::Kings })
    );
    assert_eq!(
        parse("Kings"),
        Err(ParseError::UnresolvedBook { number: None, literal: BookToken::Kings })
    );
    assert_eq!(
        parse("1 Genesis"),
        Err(ParseError::UnresolvedBook { number: Some(1), literal: BookToken::Genesis })
    );
    assert_eq!(resolve(Some(1), BookToken::Kings), Ok(Book::FirstKings));
    assert_eq!(resolve(Some(3), BookToken::John), Ok(Book::ThirdJohn));
    assert_eq!(resolve(None, BookToken::Revelation), Ok(Book::Revelation));
}

#[test]
fn the_lexer_s_errors_come_through() {
    assert_eq!(
        parse("Foo"),
        Err(ParseError::Lex(LexError::UnrecognizedLiteral { start: 0, end: 3 }))
    );
    assert_eq!(
        parse("1 ?"),
        Err(ParseError::Lex(LexError::UnexpectedCharacter { character: '?', offset: 2 }))
    );
    assert_eq!(
        parse("1:300"),
        Err(ParseError::Lex(LexError::NumberOverflow { start: 2, end: 5 }))
    );
}

#[test]
fn following_verses_and_stray_books_are_not_operators() {
    assert_eq!(parse("8ff"), Err(ParseError::UnsupportedOperator(Op::Following)));
    assert_eq!(parse("1;8ff"), Err(ParseError::UnsupportedOperator(Op::Following)));
    assert_eq!(
        parse("1:2 John"),
        Err(ParseError::UnresolvedBook { number: Some(2), literal: BookToken::John })
    );
    assert_eq!(
        parse("John John"),
        Ok(Node::InBook(Book::John, Box::new(Node::InBook(Book::John, Box::new(Node::Nil)))))
    );
}

#[test]
fn binding_powers_are_as_tabled() {
    assert_eq!(infix_binding_power(Op::BookOf), (9, 10));
    assert_eq!(infix_binding_power(Op::And), (11, 12));
    assert_eq!(infix_binding_power(Op::ChapterOf), (13, 14));
    assert_eq!(infix_binding_power(Op::Select), (15, 16));
    assert_eq!(infix_binding_power(Op::Through), (17, 18));
    assert_eq!(infix_binding_power(Op::Following), (0, 0));
    assert_eq!(postfix_binding_power(Op::Following), 20);
    assert_eq!(BindingPower::Minimum.value(), 0);
    assert_eq!(BindingPower::Book.value(), 1);
    assert_eq!(BindingPower::And.value(), 2);
    assert_eq!(BindingPower::Following.value(), 3);
}

#[test]
fn nodes_operators_and_operands_are_read_out_in_words() {
    assert_eq!(Node::Nil.to_string(), "nil");
    assert_eq!(Node::Number(12).to_string(), "12");
    assert_eq!(Node::Book(Book::FirstKings).to_string(), "1 Kings");
    assert_eq!(
        Node::InBook(Book::John, Box::new(Node::InChapter(3, number(16)))).to_string(),
        "verse 16 in chapter 3 in the book of John"
    );
    assert_eq!(Node::Through(number(1), number(3)).to_string(), "1 through 3");
    assert_eq!(Node::And(number(1), number(3)).to_string(), "1 and(;) 3");
    assert_eq!(Node::Select(number(1), number(3)).to_string(), "select 1 and(,) 3");
    assert_eq!(Op::And.to_string(), "and");
    assert_eq!(Op::BookOf.to_string(), "book of");
    assert_eq!(Op::ChapterOf.to_string(), "chapter of");
    assert_eq!(Op::Following.to_string(), "following");
    assert_eq!(Op::Select.to_string(), "select");
    assert_eq!(Op::Through.to_string(), "through");
    assert_eq!(Atom::Book(Book::SongOfSongs).to_string(), "Song of Songs");
    assert_eq!(Atom::Number(200).to_string(), "200");
    assert_eq!(Atom::Nil.to_string(), "nil");
}

#[test]
fn a_node_is_a_number_or_says_that_it_is_none() {
    let n: Result<u8, String> = Node::Number(9).try_into();
    assert_eq!(n, Ok(9));
    let n: Result<u8, String> = Node::Through(number(1), number(2)).try_into();
    assert_eq!(n, Err("1 through 2 is not a number".to_string()));
    let node = Node::InChapter(2, Box::new(Node::And(number(1), Box::new(Node::Nil))));
    assert_eq!(node.clone(), node);
}
