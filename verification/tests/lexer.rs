use scripture_ref::lexer::book_token::BookToken;
use scripture_ref::lexer::token::Token;
use scripture_ref::lexer::{LexError, Lexer};

#[test]
fn lex_simple_characters() {
    let mut lexer = Lexer::new(",:-;");
    let expected_tokens = vec![
        (Token::Comma, ":-;"),
        (Token::Colon, "-;"),
        (Token::Dash, ";"),
        (Token::SemiColon, ""),
    ];
    for expected in expected_tokens {
        let token = lexer.next().unwrap().unwrap();
        let (expected, rest) = expected;
        assert_eq!(token, expected);
        assert_eq!(lexer.rest(), rest);
    }
}

#[test]
fn lex_a_single_digit_number() {
    let mut lexer = Lexer::new("1");
    let token = lexer.next().unwrap().unwrap();
    assert_eq!(token, Token::Number(1));
    assert_eq!(lexer.rest(), "");
}

#[test]
fn lex_a_multiple_digit_number() {
    let mut lexer = Lexer::new("123");
    assert_eq!(lexer.next().unwrap().unwrap(), Token::Number(123));
    assert_eq!(lexer.rest(), "");
}

#[test]
fn lex_separate_digit_number() {
    let mut lexer = Lexer::new("1 123");
    let expected_tokens = vec![(1, " 123"), (123, "")];
    for expected in expected_tokens {
        let token = lexer.next().unwrap().unwrap();
        assert_eq!(token, Token::Number(expected.0));
        assert_eq!(lexer.rest(), expected.1);
    }
}

#[test]
fn lex_books() {
    let mut lexer = Lexer::new("Psalms");
    let expected_tokens = vec![(Token::Book(BookToken::Psalms), "")];
    for expected in expected_tokens {
        let token = lexer.next().unwrap().unwrap();
        let (expected_token, rest) = expected;
        assert_eq!(token, expected_token);
        assert_eq!(lexer.rest(), rest);
    }
}

#[test]
fn lex_simple_reference() {
    let mut lexer = Lexer::new("Psalms 1:10");
    let expected_tokens = vec![
        (Token::Book(BookToken::Psalms), " 1:10"),
        (Token::Number(1), ":10"),
        (Token::Colon, "10"),
        (Token::Number(10), ""),
    ];
    for expected in expected_tokens {
        let token = lexer.next().unwrap().unwrap();
        let (expected_token, rest) = expected;
        assert_eq!(token, expected_token);
        assert_eq!(lexer.rest(), rest);
    }
}

#[test]
fn lex_following_verses() {
    let mut lexer = Lexer::new("ff");
    let expected_tokens = vec![(Token::FF, "")];
    for expected in expected_tokens {
        let token = lexer.next().unwrap().unwrap();
        let (expected_token, rest) = expected;
        assert_eq!(token, expected_token);
        assert_eq!(lexer.rest(), rest);
    }
}

#[test]
fn lex_books_with_number() {
    let mut lexer = Lexer::new("1 Kings");
    let expected_tokens = vec![
        (Token::Number(1), " Kings"),
        (Token::Book(BookToken::Kings), ""),
    ];
    for expected in expected_tokens {
        let token = lexer.next().unwrap().unwrap();
        let (expected_token, rest) = expected;
        assert_eq!(token, expected_token);
        assert_eq!(lexer.rest(), rest);
    }
}

fn lex(text: &str) -> Vec<Result<Token, LexError>> {
    Lexer::new(text).collect()
}

fn written(items: &[Result<Token, LexError>]) -> String {
    let mut text = String::new();
    for item in items {
        if let Ok(token) = item {
            text.push_str(&token.text_string());
        }
    }
    text
}

#[test]
fn empty_and_blank_texts_give_no_token() {
    assert_eq!(lex(""), vec![]);
    assert_eq!(lex(" \t\n\u{a0}\u{2003}\u{3000} "), vec![]);
    let mut lexer = Lexer::new("   ");
    assert_eq!(lexer.peek(), None);
    assert_eq!(lexer.next(), None);
    assert_eq!(lexer.next(), None);
}

#[test]
fn peeking_twice_gives_the_same_token_and_takes_none() {
    let mut lexer = Lexer::new("John 3:16");
    assert_eq!(lexer.peek(), Some(&Ok(Token::Book(BookToken::John))));
    assert_eq!(lexer.peek(), Some(&Ok(Token::Book(BookToken::John))));
    assert_eq!(lexer.next(), Some(Ok(Token::Book(BookToken::John))));
    assert_eq!(lexer.peek(), Some(&Ok(Token::Number(3))));
    assert_eq!(lexer.next(), Some(Ok(Token::Number(3))));
    assert_eq!(lexer.next(), Some(Ok(Token::Colon)));
    assert_eq!(lexer.peek(), Some(&Ok(Token::Number(16))));
    assert_eq!(lexer.peek(), Some(&Ok(Token::Number(16))));
    assert_eq!(lexer.next(), Some(Ok(Token::Number(16))));
    assert_eq!(lexer.peek(), None);
    assert_eq!(lexer.next(), None);
}

#[test]
fn a_full_citation_gives_its_tokens_in_order() {
    assert_eq!(
        lex("John 1:1-3;8"),
        vec![
            Ok(Token::Book(BookToken::John)),
            Ok(Token::Number(1)),
            Ok(Token::Colon),
            Ok(Token::Number(1)),
            Ok(Token::Dash),
            Ok(Token::Number(3)),
            Ok(Token::SemiColon),
            Ok(Token::Number(8)),
        ]
    );
    assert_eq!(
        lex("1,2ff"),
        vec![Ok(Token::Number(1)), Ok(Token::Comma), Ok(Token::Number(2)), Ok(Token::FF)]
    );
}

#[test]
fn book_names_are_recognized_whatever_their_case() {
    assert_eq!(lex("psalms"), vec![Ok(Token::Book(BookToken::Psalms))]);
    assert_eq!(lex("GENESIS"), vec![Ok(Token::Book(BookToken::Genesis))]);
    assert_eq!(lex("Gen gn"), vec![
        Ok(Token::Book(BookToken::Genesis)),
        Ok(Token::Book(BookToken::Genesis)),
    ]);
    assert_eq!(lex("eXoDuS"), vec![Ok(Token::Book(BookToken::Exodus))]);
    assert_eq!(lex("kings"), vec![Ok(Token::Book(BookToken::Kings))]);
    assert_eq!(lex("Obadiah"), vec![Ok(Token::Book(BookToken::Obadiah))]);
    assert_eq!(lex("Matthew"), vec![Ok(Token::Book(BookToken::Matthew))]);
    assert_eq!(lex("Revelation"), vec![Ok(Token::Book(BookToken::Revelation))]);
}

#[test]
fn the_word_for_following_verses_is_held_to_its_case() {
    assert_eq!(lex("ff"), vec![Ok(Token::FF)]);
    assert_eq!(lex("FF"), vec![Err(LexError::UnrecognizedLiteral { start: 0, end: 2 })]);
    assert_eq!(lex("fff"), vec![Err(LexError::UnrecognizedLiteral { start: 0, end: 3 })]);
}

#[test]
fn an_unknown_word_is_an_error_with_its_bytes() {
    assert_eq!(
        lex("1 Foo 2"),
        vec![
            Ok(Token::Number(1)),
            Err(LexError::UnrecognizedLiteral { start: 2, end: 5 }),
            Ok(Token::Number(2)),
        ]
    );
}

#[test]
fn an_unexpected_character_is_an_error_with_its_byte() {
    assert_eq!(
        lex("1.2"),
        vec![
            Ok(Token::Number(1)),
            Err(LexError::UnexpectedCharacter { character: '.', offset: 1 }),
            Ok(Token::Number(2)),
        ]
    );
}

#[test]
fn offsets_count_bytes_behind_characters_of_several_bytes() {
    // two bytes, three bytes, four bytes, then one space of three bytes
    let text = "\u{e9}\u{20ac}\u{1f600}\u{2003}Foo?";
    assert_eq!(
        lex(text),
        vec![
            Err(LexError::UnexpectedCharacter { character: '\u{e9}', offset: 0 }),
            Err(LexError::UnexpectedCharacter { character: '\u{20ac}', offset: 2 }),
            Err(LexError::UnexpectedCharacter { character: '\u{1f600}', offset: 5 }),
            Err(LexError::UnrecognizedLiteral { start: 12, end: 15 }),
            Err(LexError::UnexpectedCharacter { character: '?', offset: 15 }),
        ]
    );
    let mut lexer = Lexer::new(text);
    assert_eq!(lexer.current_byte(), 0);
    lexer.next();
    assert_eq!(lexer.current_byte(), 2);
    assert_eq!(lexer.rest(), "\u{20ac}\u{1f600}\u{2003}Foo?");
    lexer.next();
    lexer.next();
    assert_eq!(lexer.current_byte(), 9);
    lexer.next();
    assert_eq!(lexer.current_byte(), 15);
    assert_eq!(lexer.rest(), "?");
    assert_eq!(&text[12..15], "Foo");
}

#[test]
fn a_number_past_255_is_an_error_of_its_own() {
    assert_eq!(lex("255"), vec![Ok(Token::Number(255))]);
    assert_eq!(lex("007"), vec![Ok(Token::Number(7))]);
    assert_eq!(lex("256"), vec![Err(LexError::NumberOverflow { start: 0, end: 3 })]);
    assert_eq!(
        lex("1:99999 2"),
        vec![
            Ok(Token::Number(1)),
            Ok(Token::Colon),
            Err(LexError::NumberOverflow { start: 2, end: 7 }),
            Ok(Token::Number(2)),
        ]
    );
}

#[test]
fn letters_and_digits_that_are_not_ascii_begin_no_token() {
    assert_eq!(
        lex("\u{661}"),
        vec![Err(LexError::UnexpectedCharacter { character: '\u{661}', offset: 0 })]
    );
    assert_eq!(
        lex("Psalm\u{e9}"),
        vec![
            Err(LexError::UnrecognizedLiteral { start: 0, end: 5 }),
            Err(LexError::UnexpectedCharacter { character: '\u{e9}', offset: 5 }),
        ]
    );
}

#[test]
fn tokens_written_out_lex_back_to_themselves() {
    for text in [
        "Psalms 1:10",
        "1 Kings 2:24",
        "John 1:1-3;8",
        "  gen 1 : 2 , 3 - 4 ; 5 ff ",
        "3 JOHN 1:15",
        "Revelation 22:21ff",
        "007:010",
        ";;,,--::",
    ] {
        let items = lex(text);
        assert!(items.iter().all(|item| item.is_ok()));
        let again = lex(&written(&items));
        assert_eq!(again, items, "{text}");
    }
    assert_eq!(written(&lex("1 Kings 2:24")), "1Kings2:24");
    assert_eq!(written(&lex("gen 007ff")), "Genesis7ff");
}

#[test]
fn neighbours_of_one_kind_do_not_lex_back_without_a_space() {
    let items = lex("1 2");
    assert_eq!(items, vec![Ok(Token::Number(1)), Ok(Token::Number(2))]);
    assert_eq!(lex(&written(&items)), vec![Ok(Token::Number(12))]);
    let items = lex("ff John");
    assert_eq!(items, vec![Ok(Token::FF), Ok(Token::Book(BookToken::John))]);
    assert_eq!(
        lex(&written(&items)),
        vec![Err(LexError::UnrecognizedLiteral { start: 0, end: 6 })]
    );
}

#[test]
fn tokens_are_printed_with_their_kind() {
    assert_eq!(Token::Book(BookToken::Kings).to_string(), "BOOK Kings");
    assert_eq!(Token::Comma.to_string(), "COMMA null");
    assert_eq!(Token::Colon.to_string(), "COLON null");
    assert_eq!(Token::Dash.to_string(), "DASH null");
    assert_eq!(Token::FF.to_string(), "FF null");
    assert_eq!(Token::Number(42).to_string(), "NUMBER 42");
    assert_eq!(Token::Period.to_string(), "PERIOD null");
    assert_eq!(Token::SemiColon.to_string(), "SEMICOLON null");
    assert_eq!(Token::Subverse.to_string(), "SUBVERSE null");
}

#[test]
fn book_literals_are_read_from_text() {
    assert_eq!(BookToken::from_str("Psalms"), Ok(BookToken::Psalms));
    assert_eq!(BookToken::from_str("JOHN"), Ok(BookToken::John));
    assert_eq!(BookToken::from_str("Acts"), Err("not a valid book: Acts".to_string()));
    assert_eq!(BookToken::from_str(""), Err("not a valid book: ".to_string()));
    assert_eq!(BookToken::Revelation.to_string(), "Revelation");
    for token in [
        BookToken::Genesis,
        BookToken::Exodus,
        BookToken::Kings,
        BookToken::Psalms,
        BookToken::Obadiah,
        BookToken::Matthew,
        BookToken::John,
        BookToken::Revelation,
    ] {
        assert_eq!(BookToken::from_str(token.as_str()), Ok(token));
    }
}
