//! The lexer: citation text to tokens, one at a time, with one token of
//! lookahead.

pub mod book_token;
pub mod round_trip;
pub mod token;

use crate::lexer::book_token::{recognize_book_token, BookToken};
use crate::lexer::token::Token;
use crate::text::{
    ascii_lower_text, char_is_digit, char_is_letter, char_width, is_digit, is_letter,
    lemma_text_width_is_encoded_len, lemma_text_width_prefix, parse_u8, parse_u8_range,
    skip_whitespace, skip_whitespace_from, text_width, to_chars,
};
use vstd::prelude::*;
use vstd::string::{StrSliceExecFns, StringSliceAdditionalSpecFns};

verus! {

/// Why a piece of the text is no token. Offsets count bytes of the text
/// in UTF-8, from its start.
#[derive(Debug, Clone, Copy, PartialEq, Eq, Structural)]
pub enum LexError {
    /// A character that begins no token.
    UnexpectedCharacter { character: char, offset: usize },
    /// A word that is neither `ff` nor the name of a book, from `start`
    /// up to `end`.
    UnrecognizedLiteral { start: usize, end: usize },
    /// A number greater than 255, from `start` up to `end`.
    NumberOverflow { start: usize, end: usize },
}

/// What the lexer gives for one piece of the text.
pub type LexItem = Result<Token, LexError>;

/// The number of decimal digits of `s` in a row from `from` on.
pub open spec fn digit_run(s: Seq<char>, from: int) -> nat
    decreases s.len() - from,
{
    if 0 <= from < s.len() && is_digit(s[from]) {
        1 + digit_run(s, from + 1)
    } else {
        0
    }
}

/// The number of ASCII letters of `s` in a row from `from` on.
pub open spec fn letter_run(s: Seq<char>, from: int) -> nat
    decreases s.len() - from,
{
    if 0 <= from < s.len() && is_letter(s[from]) {
        1 + letter_run(s, from + 1)
    } else {
        0
    }
}

/// The number of bytes of `s` before the character at `pos`.
pub open spec fn byte_offset(s: Seq<char>, pos: int) -> usize {
    text_width(s.take(pos)) as usize
}

/// What a run of digits from `start` up to `end` is taken for: its
/// number, or an error where that is greater than 255.
pub open spec fn number_item(s: Seq<char>, start: int, end: int) -> LexItem {
    match parse_u8(s.subrange(start, end)) {
        Ok(n) => Ok(Token::Number(n)),
        Err(_) => Err(
            LexError::NumberOverflow { start: byte_offset(s, start), end: byte_offset(s, end) },
        ),
    }
}

/// What a run of letters from `start` up to `end` is taken for: `ff`,
/// the name of a book whatever its case, or an error.
pub open spec fn word_item(s: Seq<char>, start: int, end: int) -> LexItem {
    let word = s.subrange(start, end);
    if word == "ff"@ {
        Ok(Token::FF)
    } else {
        match recognize_book_token(ascii_lower_text(word)) {
            Some(b) => Ok(Token::Book(b)),
            None => Err(
                LexError::UnrecognizedLiteral {
                    start: byte_offset(s, start),
                    end: byte_offset(s, end),
                },
            ),
        }
    }
}

/// The index behind the piece of `s` that begins at `pos`, where the
/// character at `pos` is not white space: one mark, one run of digits,
/// one run of letters, or one character that begins no token.
pub open spec fn piece_end(s: Seq<char>, pos: int) -> int {
    let c = s[pos];
    if is_digit(c) {
        pos + 1 + digit_run(s, pos + 1)
    } else if is_letter(c) {
        pos + 1 + letter_run(s, pos + 1)
    } else {
        pos + 1
    }
}

/// What the piece of `s` that begins at `pos` is taken for.
pub open spec fn piece_item(s: Seq<char>, pos: int) -> LexItem {
    let c = s[pos];
    if c == ':' {
        Ok(Token::Colon)
    } else if c == ',' {
        Ok(Token::Comma)
    } else if c == '-' {
        Ok(Token::Dash)
    } else if c == ';' {
        Ok(Token::SemiColon)
    } else if is_digit(c) {
        number_item(s, pos, piece_end(s, pos))
    } else if is_letter(c) {
        word_item(s, pos, piece_end(s, pos))
    } else {
        Err(LexError::UnexpectedCharacter { character: c, offset: byte_offset(s, pos) })
    }
}

/// A run of digits ends within the text.
pub proof fn lemma_digit_run_bounds(s: Seq<char>, from: int)
    requires
        0 <= from <= s.len(),
    ensures
        from + digit_run(s, from) <= s.len(),
    decreases s.len() - from,
{
    if from < s.len() && is_digit(s[from]) {
        lemma_digit_run_bounds(s, from + 1);
    }
}

/// A run of letters ends within the text.
pub proof fn lemma_letter_run_bounds(s: Seq<char>, from: int)
    requires
        0 <= from <= s.len(),
    ensures
        from + letter_run(s, from) <= s.len(),
    decreases s.len() - from,
{
    if from < s.len() && is_letter(s[from]) {
        lemma_letter_run_bounds(s, from + 1);
    }
}

/// A piece is not empty and ends within the text.
pub proof fn lemma_piece_end_bounds(s: Seq<char>, pos: int)
    requires
        0 <= pos < s.len(),
    ensures
        pos < piece_end(s, pos) <= s.len(),
{
    lemma_digit_run_bounds(s, pos + 1);
    lemma_letter_run_bounds(s, pos + 1);
}

/// The tokens and errors that the text `s` gives from index `pos` on:
/// white space is passed over, and every other piece gives one item.
pub open spec fn tokens_from(s: Seq<char>, pos: int) -> Seq<LexItem>
    decreases s.len() - pos,
{
    let start = skip_whitespace(s, pos);
    if 0 <= pos <= start < s.len() {
        proof {
            lemma_piece_end_bounds(s, start);
        }
        seq![piece_item(s, start)] + tokens_from(s, piece_end(s, start))
    } else {
        Seq::empty()
    }
}

/// The tokens and errors that the text `s` gives.
pub open spec fn tokens_of(s: Seq<char>) -> Seq<LexItem> {
    tokens_from(s, 0)
}

/// Where the lexer stands: the index of the next character, and the
/// number of bytes before it.
#[derive(Clone, Copy)]
struct Cursor {
    pos: usize,
    byte: usize,
}

/// A lexer over one text.
pub struct Lexer<'de> {
    input: &'de str,
    chars: Vec<char>,
    cursor: Cursor,
    peeked: Option<LexItem>,
}

impl<'de> Lexer<'de> {
    /// The characters are those of the text, the cursor stands within
    /// them, and its byte count is the width of what lies before it.
    #[verifier::type_invariant]
    closed spec fn inv(self) -> bool {
        &&& self.chars@ == self.input@
        &&& self.cursor.pos <= self.chars@.len()
        &&& self.cursor.byte == text_width(self.chars@.take(self.cursor.pos as int))
        &&& text_width(self.chars@) <= usize::MAX
    }

    /// The whole text that the lexer was made for.
    pub closed spec fn source(&self) -> Seq<char> {
        self.chars@
    }

    /// The index of the first character that the lexer has not read.
    pub closed spec fn position(&self) -> int {
        self.cursor.pos as int
    }

    /// The item that was read ahead and not yet taken, if there is one.
    pub closed spec fn peeked_item(&self) -> Option<LexItem> {
        self.peeked
    }

    /// The items that the lexer has yet to give, in order.
    pub open spec fn remaining(&self) -> Seq<LexItem> {
        match self.peeked_item() {
            Some(item) => seq![item] + tokens_from(self.source(), self.position()),
            None => tokens_from(self.source(), self.position()),
        }
    }

    /// The text that the lexer has not read.
    pub open spec fn rest_text(&self) -> Seq<char> {
        self.source().skip(self.position())
    }

    /// A lexer at the start of `input`.
    pub fn new(input: &'de str) -> (r: Self)
        ensures
            r.source() == input@,
            r.position() == 0,
            r.peeked_item() is None,
            r.remaining() == tokens_of(input@),
    {
        let chars = to_chars(input);
        // The bytes of the text are counted by a `usize`, so byte offsets fit in one.
        let bytes = input.as_bytes();
        let n = bytes.len();
        proof {
            lemma_text_width_is_encoded_len(input@);
            assert(chars@.take(0) =~= Seq::<char>::empty());
        }
        Lexer { input, chars, cursor: Cursor { pos: 0, byte: 0 }, peeked: None }
    }

    /// The text that the lexer has not read.
    pub fn rest(&self) -> (r: &'de str)
        ensures
            r@ == self.rest_text(),
    {
        proof {
            use_type_invariant(self);
        }
        let r = self.input.substring_char(self.cursor.pos, self.chars.len());
        assert(r@ =~= self.rest_text());
        r
    }

    /// The number of bytes of the text that the lexer has read.
    pub fn current_byte(&self) -> (r: usize)
        ensures
            r == byte_offset(self.source(), self.position()),
    {
        proof {
            use_type_invariant(self);
            lemma_text_width_prefix(self.chars@, self.cursor.pos as int);
        }
        self.cursor.byte
    }

    /// The next item, which stays the next: looking twice gives the same.
    pub fn peek(&mut self) -> (r: Option<&LexItem>)
        ensures
            final(self).source() == old(self).source(),
            final(self).remaining() == old(self).remaining(),
            r == (if old(self).remaining().len() > 0 {
                Some(&old(self).remaining()[0])
            } else {
                None
            }),
    {
        if self.peeked.is_some() {
            return self.peeked.as_ref();
        }
        let item = self.scan();
        proof {
            use_type_invariant(&*self);
        }
        self.peeked = item;
        self.peeked.as_ref()
    }

    /// Takes the next item, or gives `None` at the end of the text.
    pub fn next(&mut self) -> (r: Option<LexItem>)
        ensures
            final(self).source() == old(self).source(),
            old(self).remaining().len() == 0 ==> r is None && final(self).remaining().len() == 0,
            old(self).remaining().len() > 0 ==> r == Some(old(self).remaining()[0])
                && final(self).remaining() == old(self).remaining().drop_first(),
    {
        if self.peeked.is_some() {
            let item = self.peeked;
            proof {
                use_type_invariant(&*self);
            }
            self.peeked = None;
            assert(old(self).remaining().drop_first() =~= self.remaining());
            return item;
        }
        let r = self.scan();
        proof {
            if r is Some {
                assert(old(self).remaining().drop_first() =~= self.remaining());
            }
        }
        r
    }

    /// Takes all the items that are left, in order.
    pub fn collect(self) -> (r: Vec<LexItem>)
        ensures
            r@ == self.remaining(),
    {
        let mut lexer = self;
        let mut items: Vec<LexItem> = Vec::new();
        loop
            invariant
                items@ + lexer.remaining() == self.remaining(),
            ensures
                items@ == self.remaining(),
            decreases lexer.remaining().len(),
        {
            let ghost before = lexer.remaining();
            let ghost taken = items@;
            match lexer.next() {
                Some(item) => {
                    items.push(item);
                    assert(items@ + lexer.remaining() =~= taken + before);
                },
                None => {
                    assert(items@ + lexer.remaining() =~= items@);
                    break ;
                },
            }
        }
        items
    }

    /// Reads one item from the text itself: the peeked item is not looked at.
    fn scan(&mut self) -> (r: Option<LexItem>)
        requires
            old(self).peeked_item() is None,
        ensures
            final(self).source() == old(self).source(),
            final(self).peeked_item() is None,
            r is None ==> tokens_from(old(self).source(), old(self).position()).len() == 0
                && tokens_from(final(self).source(), final(self).position()).len() == 0,
            r matches Some(item) ==> tokens_from(old(self).source(), old(self).position())
                == seq![item] + tokens_from(final(self).source(), final(self).position()),
    {
        proof {
            use_type_invariant(&*self);
        }
        let ghost s = self.chars@;
        let start = skip_whitespace_from(&self.chars, self.cursor.pos);
        let start_byte = offset_after(&self.chars, self.cursor, start);
        if start >= self.chars.len() {
            self.cursor = Cursor { pos: start, byte: start_byte };
            return None;
        }
        let c = self.chars[start];
        let end: usize = if char_is_digit(c) {
            digits_end(&self.chars, start + 1)
        } else if char_is_letter(c) {
            letters_end(&self.chars, start + 1)
        } else {
            start + 1
        };
        let end_byte = offset_after(&self.chars, Cursor { pos: start, byte: start_byte }, end);
        proof {
            lemma_text_width_prefix(s, start as int);
            lemma_text_width_prefix(s, end as int);
        }
        let item: LexItem = if c == ':' {
            Ok(Token::Colon)
        } else if c == ',' {
            Ok(Token::Comma)
        } else if c == '-' {
            Ok(Token::Dash)
        } else if c == ';' {
            Ok(Token::SemiColon)
        } else if char_is_digit(c) {
            match parse_u8_range(&self.chars, start, end) {
                Ok(n) => Ok(Token::Number(n)),
                Err(_) => Err(LexError::NumberOverflow { start: start_byte, end: end_byte }),
            }
        } else if char_is_letter(c) {
            if is_following(&self.chars, start, end) {
                Ok(Token::FF)
            } else {
                match BookToken::recognize(&self.chars, start, end) {
                    Some(b) => Ok(Token::Book(b)),
                    None => Err(
                        LexError::UnrecognizedLiteral { start: start_byte, end: end_byte },
                    ),
                }
            }
        } else {
            Err(LexError::UnexpectedCharacter { character: c, offset: start_byte })
        };
        self.cursor = Cursor { pos: end, byte: end_byte };
        Some(item)
    }
}

/// The number of bytes before the character at `to`, counted on from a
/// cursor that stands at or before it.
fn offset_after(chars: &Vec<char>, cursor: Cursor, to: usize) -> (r: usize)
    requires
        cursor.pos <= to <= chars.len(),
        cursor.byte == text_width(chars@.take(cursor.pos as int)),
        text_width(chars@) <= usize::MAX,
    ensures
        r == text_width(chars@.take(to as int)),
{
    let mut i: usize = cursor.pos;
    let mut byte: usize = cursor.byte;
    while i < to
        invariant
            cursor.pos <= i <= to <= chars.len(),
            byte == text_width(chars@.take(i as int)),
            text_width(chars@) <= usize::MAX,
        decreases to - i,
    {
        proof {
            lemma_text_width_prefix(chars@, i as int);
            lemma_text_width_prefix(chars@, i as int + 1);
        }
        byte = byte + char_width(chars[i]);
        i = i + 1;
    }
    byte
}

/// The index behind the digits that stand in a row from `from` on.
fn digits_end(chars: &Vec<char>, from: usize) -> (r: usize)
    requires
        from <= chars.len(),
    ensures
        r == from + digit_run(chars@, from as int),
        from <= r <= chars.len(),
{
    let mut i: usize = from;
    while i < chars.len() && char_is_digit(chars[i])
        invariant
            from <= i <= chars.len(),
            from + digit_run(chars@, from as int) == i + digit_run(chars@, i as int),
        decreases chars.len() - i,
    {
        i = i + 1;
    }
    i
}

/// The index behind the letters that stand in a row from `from` on.
fn letters_end(chars: &Vec<char>, from: usize) -> (r: usize)
    requires
        from <= chars.len(),
    ensures
        r == from + letter_run(chars@, from as int),
        from <= r <= chars.len(),
{
    let mut i: usize = from;
    while i < chars.len() && char_is_letter(chars[i])
        invariant
            from <= i <= chars.len(),
            from + letter_run(chars@, from as int) == i + letter_run(chars@, i as int),
        decreases chars.len() - i,
    {
        i = i + 1;
    }
    i
}

/// Tests whether the characters from `start` up to `end` are the word `ff`.
fn is_following(chars: &Vec<char>, start: usize, end: usize) -> (r: bool)
    requires
        start <= end <= chars.len(),
    ensures
        r == (chars@.subrange(start as int, end as int) == "ff"@),
{
    proof {
        reveal_strlit("ff");
    }
    let ghost word = chars@.subrange(start as int, end as int);
    if end - start != 2 {
        assert(word.len() != "ff"@.len());
        return false;
    }
    let r = chars[start] == 'f' && chars[start + 1] == 'f';
    proof {
        if r {
            assert(word =~= "ff"@);
        } else {
            assert(word[0] != "ff"@[0] || word[1] != "ff"@[1]);
        }
    }
    r
}

} // verus!
