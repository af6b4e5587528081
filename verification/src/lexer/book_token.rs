//! Book-name literals: the words that the lexer takes for the name of a
//! book, before any number in front of them is taken into account.

use crate::text::{ascii_lower, ascii_lower_text, char_eq_ignore_ascii_case, to_chars};
use vstd::prelude::*;
use vstd::string::{StrSliceExecFns, StringExecFns};

verus! {

/// A recognized spelling of a book's name. One literal may stand for
/// several books, which a number in front tells apart: `Kings` is the
/// literal of both books of Kings.
#[derive(Debug, Clone, Copy, PartialEq, Eq, Hash, Structural)]
pub enum BookToken {
    Genesis,
    Exodus,
    Kings,
    Psalms,
    Obadiah,
    Matthew,
    John,
    Revelation,
}

/// The literal that the lower-case word `word` spells, if it spells one.
pub open spec fn recognize_book_token(word: Seq<char>) -> Option<BookToken> {
    if word == "genesis"@ || word == "gen"@ || word == "gn"@ {
        Some(BookToken::Genesis)
    } else if word == "exodus"@ {
        Some(BookToken::Exodus)
    } else if word == "kings"@ {
        Some(BookToken::Kings)
    } else if word == "psalms"@ {
        Some(BookToken::Psalms)
    } else if word == "obadiah"@ {
        Some(BookToken::Obadiah)
    } else if word == "matthew"@ {
        Some(BookToken::Matthew)
    } else if word == "john"@ {
        Some(BookToken::John)
    } else if word == "revelation"@ {
        Some(BookToken::Revelation)
    } else {
        None
    }
}

/// The message for a word that spells no book.
pub open spec fn unknown_book_message(word: Seq<char>) -> Seq<char> {
    "not a valid book: "@ + word
}

impl BookToken {
    /// The word that stands for the literal in a citation.
    pub open spec fn text(self) -> Seq<char> {
        match self {
            BookToken::Genesis => "Genesis"@,
            BookToken::Exodus => "Exodus"@,
            BookToken::Kings => "Kings"@,
            BookToken::Psalms => "Psalms"@,
            BookToken::Obadiah => "Obadiah"@,
            BookToken::Matthew => "Matthew"@,
            BookToken::John => "John"@,
            BookToken::Revelation => "Revelation"@,
        }
    }

    /// The word that stands for the literal in a citation.
    pub fn as_str(&self) -> (r: &'static str)
        ensures
            r@ == self.text(),
    {
        match self {
            BookToken::Genesis => "Genesis",
            BookToken::Exodus => "Exodus",
            BookToken::Kings => "Kings",
            BookToken::Psalms => "Psalms",
            BookToken::Obadiah => "Obadiah",
            BookToken::Matthew => "Matthew",
            BookToken::John => "John",
            BookToken::Revelation => "Revelation",
        }
    }

    /// The literal as it is printed.
    pub fn to_string(&self) -> (r: String)
        ensures
            r@ == self.text(),
    {
        String::from_str(self.as_str())
    }

    /// The literal that the characters of `chars` from `start` up to `end`
    /// spell, whatever their case.
    pub fn recognize(chars: &Vec<char>, start: usize, end: usize) -> (r: Option<BookToken>)
        requires
            start <= end <= chars.len(),
        ensures
            r == recognize_book_token(
                ascii_lower_text(chars@.subrange(start as int, end as int)),
            ),
    {
        proof {
            lemma_vocabulary_is_lower_case();
        }
        if range_spells(chars, start, end, "genesis") || range_spells(chars, start, end, "gen")
            || range_spells(chars, start, end, "gn") {
            Some(BookToken::Genesis)
        } else if range_spells(chars, start, end, "exodus") {
            Some(BookToken::Exodus)
        } else if range_spells(chars, start, end, "kings") {
            Some(BookToken::Kings)
        } else if range_spells(chars, start, end, "psalms") {
            Some(BookToken::Psalms)
        } else if range_spells(chars, start, end, "obadiah") {
            Some(BookToken::Obadiah)
        } else if range_spells(chars, start, end, "matthew") {
            Some(BookToken::Matthew)
        } else if range_spells(chars, start, end, "john") {
            Some(BookToken::John)
        } else if range_spells(chars, start, end, "revelation") {
            Some(BookToken::Revelation)
        } else {
            None
        }
    }

    /// The literal that `s` spells, whatever its case, or a message where
    /// it spells none.
    pub fn from_str(s: &str) -> (r: Result<BookToken, String>)
        ensures
            r.ok() == recognize_book_token(ascii_lower_text(s@)),
            r matches Err(m) ==> m@ == unknown_book_message(s@),
    {
        let chars = to_chars(s);
        assert(chars@.subrange(0, chars@.len() as int) =~= chars@);
        match BookToken::recognize(&chars, 0, chars.len()) {
            Some(token) => Ok(token),
            None => {
                let mut m = String::from_str("not a valid book: ");
                m.append(s);
                Err(m)
            },
        }
    }
}

/// Tests whether the characters of `chars` from `start` up to `end` are
/// those of `word`, ASCII case put aside.
fn range_spells(chars: &Vec<char>, start: usize, end: usize, word: &str) -> (r: bool)
    requires
        start <= end <= chars.len(),
    ensures
        r == (ascii_lower_text(chars@.subrange(start as int, end as int)) == ascii_lower_text(
            word@,
        )),
{
    let ghost range = chars@.subrange(start as int, end as int);
    let n = word.unicode_len();
    if end - start != n {
        assert(ascii_lower_text(range).len() != ascii_lower_text(word@).len());
        return false;
    }
    let mut i: usize = 0;
    while i < n
        invariant
            start <= end <= chars.len(),
            end - start == n,
            n == word@.len(),
            i <= n,
            range == chars@.subrange(start as int, end as int),
            forall|j: int| 0 <= j < i ==> ascii_lower(range[j]) == ascii_lower(#[trigger] word@[j]),
        decreases n - i,
    {
        if !char_eq_ignore_ascii_case(chars[start + i], word.get_char(i)) {
            assert(ascii_lower_text(range)[i as int] != ascii_lower_text(word@)[i as int]);
            return false;
        }
        i = i + 1;
    }
    assert(ascii_lower_text(range) =~= ascii_lower_text(word@));
    true
}

/// The words of the vocabulary are written in lower case.
pub proof fn lemma_vocabulary_is_lower_case()
    ensures
        ascii_lower_text("genesis"@) == "genesis"@,
        ascii_lower_text("gen"@) == "gen"@,
        ascii_lower_text("gn"@) == "gn"@,
        ascii_lower_text("exodus"@) == "exodus"@,
        ascii_lower_text("kings"@) == "kings"@,
        ascii_lower_text("psalms"@) == "psalms"@,
        ascii_lower_text("obadiah"@) == "obadiah"@,
        ascii_lower_text("matthew"@) == "matthew"@,
        ascii_lower_text("john"@) == "john"@,
        ascii_lower_text("revelation"@) == "revelation"@,
{
    reveal_strlit("genesis");
    reveal_strlit("gen");
    reveal_strlit("gn");
    reveal_strlit("exodus");
    reveal_strlit("kings");
    reveal_strlit("psalms");
    reveal_strlit("obadiah");
    reveal_strlit("matthew");
    reveal_strlit("john");
    reveal_strlit("revelation");
    assert(ascii_lower_text("genesis"@) =~= "genesis"@);
    assert(ascii_lower_text("gen"@) =~= "gen"@);
    assert(ascii_lower_text("gn"@) =~= "gn"@);
    assert(ascii_lower_text("exodus"@) =~= "exodus"@);
    assert(ascii_lower_text("kings"@) =~= "kings"@);
    assert(ascii_lower_text("psalms"@) =~= "psalms"@);
    assert(ascii_lower_text("obadiah"@) =~= "obadiah"@);
    assert(ascii_lower_text("matthew"@) =~= "matthew"@);
    assert(ascii_lower_text("john"@) =~= "john"@);
    assert(ascii_lower_text("revelation"@) =~= "revelation"@);
}

/// Every literal is recognized from the word that stands for it.
pub proof fn lemma_text_is_recognized(token: BookToken)
    ensures
        recognize_book_token(ascii_lower_text(token.text())) == Some(token),
{
    reveal_strlit("genesis");
    reveal_strlit("gen");
    reveal_strlit("gn");
    reveal_strlit("exodus");
    reveal_strlit("kings");
    reveal_strlit("psalms");
    reveal_strlit("obadiah");
    reveal_strlit("matthew");
    reveal_strlit("john");
    reveal_strlit("revelation");
    reveal_strlit("Genesis");
    reveal_strlit("Exodus");
    reveal_strlit("Kings");
    reveal_strlit("Psalms");
    reveal_strlit("Obadiah");
    reveal_strlit("Matthew");
    reveal_strlit("John");
    reveal_strlit("Revelation");
    assert("genesis"@[0] == 'g' && "exodus"@[0] == 'e' && "kings"@[0] == 'k');
    assert("psalms"@[0] == 'p' && "obadiah"@[0] == 'o' && "matthew"@[0] == 'm');
    assert("john"@[0] == 'j' && "revelation"@[0] == 'r');
    match token {
        BookToken::Genesis => {
            assert(ascii_lower_text("Genesis"@) =~= "genesis"@);
            assert(recognize_book_token("genesis"@) == Some(token));
        },
        BookToken::Exodus => {
            assert(ascii_lower_text("Exodus"@) =~= "exodus"@);
            assert(recognize_book_token("exodus"@) == Some(token));
        },
        BookToken::Kings => {
            assert(ascii_lower_text("Kings"@) =~= "kings"@);
            assert(recognize_book_token("kings"@) == Some(token));
        },
        BookToken::Psalms => {
            assert(ascii_lower_text("Psalms"@) =~= "psalms"@);
            assert(recognize_book_token("psalms"@) == Some(token));
        },
        BookToken::Obadiah => {
            assert(ascii_lower_text("Obadiah"@) =~= "obadiah"@);
            assert(recognize_book_token("obadiah"@) == Some(token));
        },
        BookToken::Matthew => {
            assert(ascii_lower_text("Matthew"@) =~= "matthew"@);
            assert(recognize_book_token("matthew"@) == Some(token));
        },
        BookToken::John => {
            assert(ascii_lower_text("John"@) =~= "john"@);
            assert(recognize_book_token("john"@) == Some(token));
        },
        BookToken::Revelation => {
            assert(ascii_lower_text("Revelation"@) =~= "revelation"@);
            assert(recognize_book_token("revelation"@) == Some(token));
        },
    }
}

} // verus!
