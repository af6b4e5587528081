//! Tokens written out and lexed again are the same tokens.

use crate::lexer::book_token::{lemma_text_is_recognized, BookToken};
use crate::lexer::token::Token;
use crate::lexer::{
    digit_run, lemma_piece_end_bounds, letter_run, piece_end, piece_item, tokens_from, tokens_of,
    LexItem,
};
use crate::text::{
    all_digits, is_digit, is_letter, is_whitespace, lemma_decimal, lemma_parse_u8_digits,
    skip_whitespace,
};
use vstd::prelude::*;

verus! {

/// The tokens among `items`, in order: the errors are left out.
pub open spec fn written_tokens(items: Seq<LexItem>) -> Seq<Token>
    decreases items.len(),
{
    if items.len() == 0 {
        Seq::empty()
    } else {
        match items[0] {
            Ok(token) => seq![token] + written_tokens(items.drop_first()),
            Err(_) => written_tokens(items.drop_first()),
        }
    }
}

/// The texts of `tokens`, one behind the other with nothing between.
pub open spec fn concat_texts(tokens: Seq<Token>) -> Seq<char>
    decreases tokens.len(),
{
    if tokens.len() == 0 {
        Seq::empty()
    } else {
        tokens[0].text() + concat_texts(tokens.drop_first())
    }
}

/// `tokens` as the lexer gives them: each one an item that is no error.
pub open spec fn as_items(tokens: Seq<Token>) -> Seq<LexItem> {
    Seq::new(tokens.len(), |i: int| Ok(tokens[i]))
}

/// Whether the text of `token` is a word: the name of a book, or `ff`.
pub open spec fn is_word(token: Token) -> bool {
    token is Book || token is FF
}

/// Whether `second` can be written directly behind `first` and still be
/// read as a token of its own: two numbers would be read as one number,
/// and two words as one word.
pub open spec fn can_follow(first: Token, second: Token) -> bool {
    !(first is Number && second is Number) && !(is_word(first) && is_word(second))
}

/// Whether each of `tokens` can be written directly behind the one before it.
pub open spec fn separable(tokens: Seq<Token>) -> bool {
    forall|i: int| 0 <= i && i + 1 < tokens.len() ==> can_follow(#[trigger] tokens[i], tokens[i + 1])
}

/// Whether every one of `tokens` is one that the lexer can give.
pub open spec fn all_written(tokens: Seq<Token>) -> bool {
    forall|i: int| 0 <= i < tokens.len() ==> (#[trigger] tokens[i]).is_written()
}

/// Whether none of `items` is an error.
pub open spec fn all_ok(items: Seq<LexItem>) -> bool {
    forall|i: int| 0 <= i < items.len() ==> (#[trigger] items[i]) is Ok
}

/// Whether every character of `s` is an ASCII letter.
pub open spec fn all_letters(s: Seq<char>) -> bool {
    forall|i: int| 0 <= i < s.len() ==> is_letter(#[trigger] s[i])
}

/// Lexing a text, writing the tokens out one behind the other, and
/// lexing what was written gives the same tokens again, where no two
/// numbers and no two words stand next to each other: written without a
/// space between them, those would be read as one.
pub proof fn law_lexing_round_trips(text: Seq<char>)
    requires
        separable(written_tokens(tokens_of(text))),
    ensures
        tokens_of(concat_texts(written_tokens(tokens_of(text)))) == as_items(
            written_tokens(tokens_of(text)),
        ),
{
    lemma_lexed_tokens_are_written(text, 0);
    lemma_written_tokens_lex_back(written_tokens(tokens_of(text)));
}

/// The texts of `tokens`, each with one space behind it.
pub open spec fn spaced_texts(tokens: Seq<Token>) -> Seq<char>
    decreases tokens.len(),
{
    if tokens.len() == 0 {
        Seq::empty()
    } else {
        tokens[0].text() + seq![' '] + spaced_texts(tokens.drop_first())
    }
}

/// Lexing a text, writing the tokens out with a space behind each, and
/// lexing what was written gives the same tokens again.
pub proof fn law_lexing_round_trips_with_spaces(text: Seq<char>)
    ensures
        tokens_of(spaced_texts(written_tokens(tokens_of(text)))) == as_items(
            written_tokens(tokens_of(text)),
        ),
{
    lemma_lexed_tokens_are_written(text, 0);
    lemma_spaced_tokens_lex_back(written_tokens(tokens_of(text)));
}

/// Tokens that the lexer can give, written out with a space behind
/// each, are lexed as themselves.
pub proof fn lemma_spaced_tokens_lex_back(tokens: Seq<Token>)
    requires
        all_written(tokens),
    ensures
        tokens_of(spaced_texts(tokens)) == as_items(tokens),
    decreases tokens.len(),
{
    if tokens.len() == 0 {
        assert(tokens_of(spaced_texts(tokens)) =~= as_items(tokens));
    } else {
        let first = tokens[0];
        let rest = tokens.drop_first();
        assert(all_written(rest)) by {
            assert forall|i: int| 0 <= i < rest.len() implies (#[trigger] rest[i]).is_written() by {
                assert(rest[i] == tokens[i + 1]);
            }
        }
        lemma_spaced_tokens_lex_back(rest);
        lemma_spaced_step(first, spaced_texts(rest), as_items(rest));
        assert(seq![Ok::<Token, crate::lexer::LexError>(first)] + as_items(rest) =~= as_items(
            tokens,
        ));
    }
}

/// A token's text, a space, and a text that is lexed without error are
/// lexed as the token and then the items of that text.
proof fn lemma_spaced_step(first: Token, behind: Seq<char>, items: Seq<LexItem>)
    requires
        first.is_written(),
        tokens_of(behind) == items,
        all_ok(items),
    ensures
        tokens_of(first.text() + seq![' '] + behind) == seq![
            Ok::<Token, crate::lexer::LexError>(first),
        ] + items,
{
    let tail = seq![' '] + behind;
    let front = first.text() + seq![' '];
    let whole = first.text() + seq![' '] + behind;
    let n = first.text().len() as int;
    assert(whole =~= first.text() + tail);
    assert(tail[0] == ' ');
    lemma_first_token(first, tail);
    assert(whole[n] == ' ');
    lemma_space_is_passed_over(whole, n);
    lemma_tokens_shift(front, behind, 0);
}

/// A space gives no item.
proof fn lemma_space_is_passed_over(s: Seq<char>, pos: int)
    requires
        0 <= pos < s.len(),
        s[pos] == ' ',
    ensures
        tokens_from(s, pos) == tokens_from(s, pos + 1),
{
    lemma_skip_whitespace_bounds(s, pos + 1);
}

/// Tokens that the lexer can give, written out one behind the other,
/// are lexed as themselves, where each can follow the one before it.
pub proof fn lemma_written_tokens_lex_back(tokens: Seq<Token>)
    requires
        all_written(tokens),
        separable(tokens),
    ensures
        tokens_of(concat_texts(tokens)) == as_items(tokens),
    decreases tokens.len(),
{
    if tokens.len() == 0 {
        assert(tokens_of(concat_texts(tokens)) =~= as_items(tokens));
    } else {
        let first = tokens[0];
        let rest = tokens.drop_first();
        let tail = concat_texts(rest);
        assert(first.is_written());
        assert forall|i: int| 0 <= i < rest.len() implies (#[trigger] rest[i]).is_written() by {
            assert(rest[i] == tokens[i + 1]);
        }
        assert forall|i: int| 0 <= i && i + 1 < rest.len() implies can_follow(
            #[trigger] rest[i],
            rest[i + 1],
        ) by {
            assert(rest[i] == tokens[i + 1]);
            assert(rest[i + 1] == tokens[i + 1 + 1]);
            assert(can_follow(tokens[i + 1], tokens[i + 1 + 1]));
        }
        lemma_written_tokens_lex_back(rest);
        lemma_token_text(first);
        if rest.len() > 0 {
            lemma_token_text(rest[0]);
            assert(rest[0] == tokens[1]);
            assert(can_follow(tokens[0int], tokens[0int + 1]));
            assert(tail[0] == rest[0].text()[0]);
        } else {
            assert(tail.len() == 0);
        }
        lemma_first_token(first, tail);
        assert forall|i: int| 0 <= i < tokens_from(tail, 0).len() implies (#[trigger] tokens_from(
            tail,
            0,
        )[i]) is Ok by {
            assert(tokens_from(tail, 0)[i] == as_items(rest)[i]);
        }
        lemma_tokens_shift(first.text(), tail, 0);
        assert(tokens_of(concat_texts(tokens)) =~= as_items(tokens));
    }
}

/// The text of a token that the lexer can give is not empty, and begins
/// as the token's kind says: a number with a digit, a word with a letter,
/// a mark with the mark. A number is all digits and a word all letters.
pub proof fn lemma_token_text(token: Token)
    requires
        token.is_written(),
    ensures
        token.text().len() > 0,
        !is_whitespace(token.text()[0]),
        token is Number ==> all_digits(token.text()),
        is_word(token) ==> all_letters(token.text()),
        token is Number <==> is_digit(token.text()[0]),
        is_word(token) <==> is_letter(token.text()[0]),
        token is Colon ==> token.text() == seq![':'],
        token is Comma ==> token.text() == seq![','],
        token is Dash ==> token.text() == seq!['-'],
        token is SemiColon ==> token.text() == seq![';'],
{
    reveal_strlit(":");
    reveal_strlit(",");
    reveal_strlit("-");
    reveal_strlit(";");
    reveal_strlit("ff");
    match token {
        Token::Book(b) => {
            lemma_book_text(b);
        },
        Token::Number(n) => {
            lemma_decimal(n as nat);
        },
        Token::Colon => {
            assert(":"@ =~= seq![':']);
        },
        Token::Comma => {
            assert(","@ =~= seq![',']);
        },
        Token::Dash => {
            assert("-"@ =~= seq!['-']);
        },
        Token::SemiColon => {
            assert(";"@ =~= seq![';']);
        },
        Token::FF => {
            assert("ff"@[0] == 'f' && "ff"@[1] == 'f');
        },
        _ => {},
    }
}

/// The name of a book is made of letters, and is not `ff`.
pub proof fn lemma_book_text(book: BookToken)
    ensures
        book.text().len() > 2,
        all_letters(book.text()),
{
    reveal_strlit("Genesis");
    reveal_strlit("Exodus");
    reveal_strlit("Kings");
    reveal_strlit("Psalms");
    reveal_strlit("Obadiah");
    reveal_strlit("Matthew");
    reveal_strlit("John");
    reveal_strlit("Revelation");
}

/// Digits in a row are counted up to the first character that is no digit.
pub proof fn lemma_digit_run(s: Seq<char>, from: int, to: int)
    requires
        0 <= from <= to <= s.len(),
        forall|i: int| from <= i < to ==> is_digit(#[trigger] s[i]),
        to < s.len() ==> !is_digit(s[to]),
    ensures
        digit_run(s, from) == to - from,
    decreases to - from,
{
    if from < to {
        lemma_digit_run(s, from + 1, to);
    }
}

/// Letters in a row are counted up to the first character that is no letter.
pub proof fn lemma_letter_run(s: Seq<char>, from: int, to: int)
    requires
        0 <= from <= to <= s.len(),
        forall|i: int| from <= i < to ==> is_letter(#[trigger] s[i]),
        to < s.len() ==> !is_letter(s[to]),
    ensures
        letter_run(s, from) == to - from,
    decreases to - from,
{
    if from < to {
        lemma_letter_run(s, from + 1, to);
    }
}

/// A token's text, with a text behind it that does not go on with the
/// token, is lexed as the token, and lexing goes on behind the text.
pub proof fn lemma_first_token(token: Token, tail: Seq<char>)
    requires
        token.is_written(),
        tail.len() > 0 && token is Number ==> !is_digit(tail[0]),
        tail.len() > 0 && is_word(token) ==> !is_letter(tail[0]),
    ensures
        tokens_from(token.text() + tail, 0) == seq![Ok::<Token, crate::lexer::LexError>(token)]
            + tokens_from(token.text() + tail, token.text().len() as int),
{
    let text = token.text();
    let s = text + tail;
    let n = text.len() as int;
    lemma_token_text(token);
    assert(s[0] == text[0]);
    assert(skip_whitespace(s, 0) == 0);
    assert(s.subrange(0, n) =~= text);
    match token {
        Token::Number(value) => {
            assert forall|i: int| 1 <= i < n implies is_digit(#[trigger] s[i]) by {
                assert(s[i] == text[i]);
            }
            if n < s.len() {
                assert(s[n] == tail[0]);
            }
            lemma_digit_run(s, 1, n);
            lemma_decimal(value as nat);
            lemma_parse_u8_digits(text);
        },
        Token::Book(b) => {
            assert forall|i: int| 1 <= i < n implies is_letter(#[trigger] s[i]) by {
                assert(s[i] == text[i]);
            }
            if n < s.len() {
                assert(s[n] == tail[0]);
            }
            lemma_letter_run(s, 1, n);
            lemma_book_text(b);
            lemma_text_is_recognized(b);
            reveal_strlit("ff");
        },
        Token::FF => {
            assert forall|i: int| 1 <= i < n implies is_letter(#[trigger] s[i]) by {
                assert(s[i] == text[i]);
            }
            if n < s.len() {
                assert(s[n] == tail[0]);
            }
            lemma_letter_run(s, 1, n);
        },
        _ => {},
    }
    assert(piece_end(s, 0) == n);
    assert(piece_item(s, 0) == Ok::<Token, crate::lexer::LexError>(token));
}

/// White space is passed over in a text as it is in the same text with
/// another in front.
pub proof fn lemma_skip_whitespace_shift(front: Seq<char>, s: Seq<char>, from: int)
    requires
        0 <= from <= s.len(),
    ensures
        skip_whitespace(front + s, front.len() + from) == front.len() + skip_whitespace(s, from),
    decreases s.len() - from,
{
    if from < s.len() {
        assert((front + s)[front.len() + from] == s[from]);
        if is_whitespace(s[from]) {
            lemma_skip_whitespace_shift(front, s, from + 1);
        }
    }
}

/// Digits and letters in a row are counted in a text as they are in the
/// same text with another in front.
pub proof fn lemma_run_shift(front: Seq<char>, s: Seq<char>, from: int)
    requires
        0 <= from <= s.len(),
    ensures
        digit_run(front + s, front.len() + from) == digit_run(s, from),
        letter_run(front + s, front.len() + from) == letter_run(s, from),
    decreases s.len() - from,
{
    if from < s.len() {
        assert((front + s)[front.len() + from] == s[from]);
        lemma_run_shift(front, s, from + 1);
    }
}

/// A text that is lexed without error is lexed to the same tokens with
/// another text in front, from where that one ends.
pub proof fn lemma_tokens_shift(front: Seq<char>, s: Seq<char>, from: int)
    requires
        0 <= from <= s.len(),
        all_ok(tokens_from(s, from)),
    ensures
        tokens_from(front + s, front.len() + from) == tokens_from(s, from),
    decreases s.len() - from,
{
    let whole = front + s;
    let k = front.len() as int;
    lemma_skip_whitespace_shift(front, s, from);
    let start = skip_whitespace(s, from);
    lemma_skip_whitespace_bounds(s, from);
    if start < s.len() {
        let end = piece_end(s, start);
        lemma_piece_end_bounds(s, start);
        assert(whole[k + start] == s[start]);
        lemma_run_shift(front, s, start + 1);
        assert(piece_end(whole, k + start) == k + end);
        assert(whole.subrange(k + start, k + end) =~= s.subrange(start, end));
        let items = tokens_from(s, from);
        assert(items[0] == piece_item(s, start));
        assert(items[0] is Ok);
        assert(piece_item(whole, k + start) == piece_item(s, start));
        assert forall|i: int| 0 <= i < tokens_from(s, end).len() implies (#[trigger] tokens_from(
            s,
            end,
        )[i]) is Ok by {
            assert(tokens_from(s, end)[i] == items[i + 1]);
        }
        lemma_tokens_shift(front, s, end);
    }
}

/// Passing over white space moves forward, and not past the end.
pub proof fn lemma_skip_whitespace_bounds(s: Seq<char>, from: int)
    requires
        0 <= from <= s.len(),
    ensures
        from <= skip_whitespace(s, from) <= s.len(),
    decreases s.len() - from,
{
    if from < s.len() && is_whitespace(s[from]) {
        lemma_skip_whitespace_bounds(s, from + 1);
    }
}

/// The lexer gives no token other than a book, a number, `ff` and the
/// four marks.
pub proof fn lemma_lexed_tokens_are_written(s: Seq<char>, from: int)
    requires
        0 <= from <= s.len(),
    ensures
        all_written(written_tokens(tokens_from(s, from))),
    decreases s.len() - from,
{
    let start = skip_whitespace(s, from);
    lemma_skip_whitespace_bounds(s, from);
    if start < s.len() {
        let end = piece_end(s, start);
        lemma_piece_end_bounds(s, start);
        lemma_lexed_tokens_are_written(s, end);
        let items = tokens_from(s, from);
        assert(items.drop_first() =~= tokens_from(s, end));
        let rest = written_tokens(tokens_from(s, end));
        match items[0] {
            Ok(token) => {
                assert(token.is_written());
                assert forall|i: int| 0 <= i < written_tokens(items).len() implies (
                #[trigger] written_tokens(items)[i]).is_written() by {
                    if i > 0 {
                        assert(written_tokens(items)[i] == rest[i - 1]);
                    }
                }
            },
            Err(_) => {},
        }
    }
}

} // verus!
