//! References to scripture by book, chapter and verse, with numbers
//! that are held only to their widest ranges.

use crate::text::{lowercase, same_text, to_lowercase};
use vstd::prelude::*;
use vstd::std_specs::convert::{FromSpecImpl, TryFromSpecImpl};
use vstd::string::StringExecFns;

verus! {

/// Why a reference to a verse is not valid: the message.
#[derive(Debug, PartialEq, Eq)]
pub struct VerseReferenceError(pub String);

/// Why a passage is not valid.
#[derive(Debug, PartialEq, Eq)]
pub enum PassageError {
    InvalidVerseRange(&'static str),
}

/// Why a selection is not valid.
#[derive(Debug, PartialEq, Eq)]
pub enum SelectionError {
    InvalidSelection(VerseReferenceError),
}

/// Why a reference to scripture is not valid.
#[derive(Debug, PartialEq, Eq)]
pub enum ScriptureReferenceError {
    InvalidVerse(String),
    InvalidPassage(PassageError),
    InvalidSelection(SelectionError),
}

impl ScriptureReferenceError {
    /// The message of the error.
    pub open spec fn text(&self) -> Seq<char> {
        match self {
            ScriptureReferenceError::InvalidVerse(_) => "Verse reference is invalid"@,
            ScriptureReferenceError::InvalidPassage(_) => "Passage is invalid"@,
            ScriptureReferenceError::InvalidSelection(_) => "Selection is invalid"@,
        }
    }

    /// The message of the error.
    pub fn to_string(&self) -> (r: String)
        ensures
            r@ == self.text(),
    {
        match self {
            ScriptureReferenceError::InvalidVerse(_) => String::from_str(
                "Verse reference is invalid",
            ),
            ScriptureReferenceError::InvalidPassage(_) => String::from_str("Passage is invalid"),
            ScriptureReferenceError::InvalidSelection(_) => String::from_str(
                "Selection is invalid",
            ),
        }
    }
}

impl PassageError {
    /// The message of the error.
    pub fn to_string(&self) -> (r: String)
        ensures
            r@ == "Verse range is invalid"@,
    {
        String::from_str("Verse range is invalid")
    }
}

impl SelectionError {
    /// The message of the error.
    pub fn to_string(&self) -> (r: String)
        ensures
            r@ == "Selection is invalid"@,
    {
        String::from_str("Selection is invalid")
    }
}

impl From<&'static str> for VerseReferenceError {
    /// The error with the message `value`.
    fn from(value: &'static str) -> (r: Self)
        ensures
            r.0@ == value@,
    {
        VerseReferenceError(String::from_str(value))
    }
}

impl FromSpecImpl<&'static str> for VerseReferenceError {
    open spec fn obeys_from_spec() -> bool {
        false
    }

    open spec fn from_spec(value: &'static str) -> Self {
        arbitrary()
    }
}

impl From<String> for VerseReferenceError {
    /// The error with the message `value`.
    fn from(value: String) -> (r: Self) {
        VerseReferenceError(value)
    }
}

impl FromSpecImpl<String> for VerseReferenceError {
    open spec fn obeys_from_spec() -> bool {
        true
    }

    open spec fn from_spec(value: String) -> Self {
        VerseReferenceError(value)
    }
}

impl From<VerseReferenceError> for ScriptureReferenceError {
    /// The error of a reference to scripture for an invalid verse.
    fn from(value: VerseReferenceError) -> (r: Self) {
        ScriptureReferenceError::InvalidVerse(value.0)
    }
}

impl FromSpecImpl<VerseReferenceError> for ScriptureReferenceError {
    open spec fn obeys_from_spec() -> bool {
        true
    }

    open spec fn from_spec(value: VerseReferenceError) -> Self {
        ScriptureReferenceError::InvalidVerse(value.0)
    }
}

/// A translation of scripture.
pub enum Translation {
    ESV,
    KJV,
    Other(String),
}

impl Translation {
    /// Whether `self` is the translation that the lower-case name
    /// `normalized` stands for, where `given` is the name as it was given.
    pub open spec fn is_named(&self, normalized: Seq<char>, given: Seq<char>) -> bool {
        match self {
            Translation::ESV => normalized == "esv"@,
            Translation::KJV => normalized == "kjv"@,
            Translation::Other(name) => normalized != "esv"@ && normalized != "kjv"@ && name@
                == given,
        }
    }

    /// The translation that the lower-case name `normalized` stands for;
    /// any other than `esv` and `kjv` is kept under the name `given`.
    pub fn from_normalized(normalized: &str, given: &str) -> (r: Self)
        ensures
            r.is_named(normalized@, given@),
    {
        proof {
            reveal_strlit("esv");
            reveal_strlit("kjv");
            assert("esv"@[0] != "kjv"@[0]);
        }
        if same_text(normalized, "esv") {
            Translation::ESV
        } else if same_text(normalized, "kjv") {
            Translation::KJV
        } else {
            Translation::Other(String::from_str(given))
        }
    }
}

impl<'a> From<&'a str> for Translation {
    /// The translation that `value` names, whatever its case.
    fn from(value: &'a str) -> (r: Self)
        ensures
            r.is_named(lowercase(value@), value@),
    {
        let normalized = to_lowercase(value);
        Translation::from_normalized(normalized.as_str(), value)
    }
}

impl<'a> FromSpecImpl<&'a str> for Translation {
    open spec fn obeys_from_spec() -> bool {
        false
    }

    open spec fn from_spec(value: &'a str) -> Self {
        arbitrary()
    }
}

/// The books that a reference can name.
#[derive(Debug, Clone, Copy, PartialEq, Eq, Structural)]
pub enum Book {
    Genesis,
    Exodus,
    FirstKings,
    SongOfSongs,
    Obadiah,
    Matthew,
}

/// The book that the lower-case name `name` stands for, if it stands for one.
pub open spec fn recognize_book_name(name: Seq<char>) -> Option<Book> {
    if name == "genesis"@ {
        Some(Book::Genesis)
    } else if name == "1 kings"@ {
        Some(Book::FirstKings)
    } else if name == "song of songs"@ {
        Some(Book::SongOfSongs)
    } else if name == "obadiah"@ {
        Some(Book::Obadiah)
    } else if name == "matthew"@ {
        Some(Book::Matthew)
    } else {
        None
    }
}

/// The message for a name that stands for no book.
pub open spec fn invalid_book_message(name: Seq<char>) -> Seq<char> {
    "Book is not valid: "@ + name
}

impl Book {
    /// The book that the lower-case name `normalized` stands for, or a
    /// message that quotes `given` where it stands for none.
    pub fn from_normalized(normalized: &str, given: &str) -> (r: Result<Book, String>)
        ensures
            r.ok() == recognize_book_name(normalized@),
            r matches Err(m) ==> m@ == invalid_book_message(given@),
    {
        if same_text(normalized, "genesis") {
            Ok(Book::Genesis)
        } else if same_text(normalized, "1 kings") {
            Ok(Book::FirstKings)
        } else if same_text(normalized, "song of songs") {
            Ok(Book::SongOfSongs)
        } else if same_text(normalized, "obadiah") {
            Ok(Book::Obadiah)
        } else if same_text(normalized, "matthew") {
            Ok(Book::Matthew)
        } else {
            let mut m = String::from_str("Book is not valid: ");
            m.append(given);
            Err(m)
        }
    }
}

impl<'a> TryFrom<&'a str> for Book {
    type Error = String;

    /// The book that `value` names, whatever its case.
    fn try_from(value: &'a str) -> (r: Result<Self, String>)
        ensures
            r.ok() == recognize_book_name(lowercase(value@)),
            r matches Err(m) ==> m@ == invalid_book_message(value@),
    {
        let normalized = to_lowercase(value);
        Book::from_normalized(normalized.as_str(), value)
    }
}

impl<'a> TryFromSpecImpl<&'a str> for Book {
    open spec fn obeys_try_from_spec() -> bool {
        false
    }

    open spec fn try_from_spec(v: &'a str) -> Result<Self, Self::Error> {
        arbitrary()
    }
}

/// The message for a code that is not one of the letters `a` to `d`.
pub const INVALID_PHRASE: &'static str =
    "Verse phrase is not valid, must be a single letter from a to d";

/// The message for a verse number outside 1 to 175.
pub const INVALID_VERSE_NUMBER: &'static str =
    "Verse number is invalid; must be positive and not be greater than 175";

/// The message for a chapter number outside 1 to 150.
pub const INVALID_CHAPTER: &'static str =
    "Chapter out of range; must be positive and not greater than 150";

/// The part of a verse: 0 for `a`, up to 3 for `d`.
#[derive(Debug, PartialEq, Eq)]
pub struct VersePhrase(pub u8);

/// The phrase with the ASCII code `value`, if that is one of `a` to `d`.
pub open spec fn phrase_of(value: u8) -> Result<VersePhrase, &'static str> {
    if 97 <= value <= 100 {
        Ok(VersePhrase((value - 97) as u8))
    } else {
        Err(INVALID_PHRASE)
    }
}

impl TryFrom<u8> for VersePhrase {
    type Error = &'static str;

    /// The phrase of the letter with the ASCII code `value`.
    fn try_from(value: u8) -> (r: Result<Self, &'static str>) {
        if 97 <= value && value <= 100 {
            Ok(VersePhrase(value - 97))
        } else {
            Err(INVALID_PHRASE)
        }
    }
}

impl TryFromSpecImpl<u8> for VersePhrase {
    open spec fn obeys_try_from_spec() -> bool {
        true
    }

    open spec fn try_from_spec(value: u8) -> Result<Self, Self::Error> {
        phrase_of(value)
    }
}

/// The phrase of the letter `value`, if that is one of `a` to `d`. No
/// other character is a phrase, whatever its code.
pub open spec fn phrase_of_char(value: char) -> Result<VersePhrase, &'static str> {
    if 'a' <= value <= 'd' {
        Ok(VersePhrase((value as u32 - 97) as u8))
    } else {
        Err(INVALID_PHRASE)
    }
}

impl TryFrom<char> for VersePhrase {
    type Error = &'static str;

    /// The phrase of the letter `value`.
    fn try_from(value: char) -> (r: Result<Self, &'static str>) {
        if 'a' <= value && value <= 'd' {
            Ok(VersePhrase((value as u32 - 97) as u8))
        } else {
            Err(INVALID_PHRASE)
        }
    }
}

impl TryFromSpecImpl<char> for VersePhrase {
    open spec fn obeys_try_from_spec() -> bool {
        true
    }

    open spec fn try_from_spec(value: char) -> Result<Self, Self::Error> {
        phrase_of_char(value)
    }
}

/// The number of a verse.
#[derive(Debug, PartialEq, Eq)]
pub struct VerseNumber(pub u16);

impl TryFrom<u16> for VerseNumber {
    type Error = &'static str;

    /// The verse number `value`, where it is 1 to 175.
    fn try_from(value: u16) -> (r: Result<Self, &'static str>) {
        if value < 1 || value > 175 {
            Err(INVALID_VERSE_NUMBER)
        } else {
            Ok(VerseNumber(value))
        }
    }
}

impl TryFromSpecImpl<u16> for VerseNumber {
    open spec fn obeys_try_from_spec() -> bool {
        true
    }

    open spec fn try_from_spec(value: u16) -> Result<Self, Self::Error> {
        if value < 1 || value > 175 {
            Err(INVALID_VERSE_NUMBER)
        } else {
            Ok(VerseNumber(value))
        }
    }
}

/// A verse, or a part of it.
#[derive(Debug, PartialEq, Eq)]
pub struct Verse {
    pub number: VerseNumber,
    pub phrase: Option<VersePhrase>,
}

impl Verse {
    /// The verse `number`, or its part `phrase`.
    pub fn new(number: VerseNumber, phrase: Option<VersePhrase>) -> (r: Self)
        ensures
            r.number == number,
            r.phrase == phrase,
    {
        Self { number, phrase }
    }

    /// The whole verse of the number that `number` holds, or the error
    /// that it holds.
    pub fn whole(number: Result<VerseNumber, &'static str>) -> (r: Result<
        Self,
        VerseReferenceError,
    >)
        ensures
            match number {
                Ok(n) => r matches Ok(v) && v.number == n && v.phrase is None,
                Err(e) => r matches Err(x) && x.0@ == e@,
            },
    {
        match number {
            Ok(n) => Ok(Self::new(n, None)),
            Err(e) => Err(VerseReferenceError::from(e)),
        }
    }

    /// The part of a verse that `number` and `phrase` hold, or the error
    /// that `number` holds, or else the one that `phrase` holds.
    pub fn partial(
        number: Result<VerseNumber, &'static str>,
        phrase: Result<VersePhrase, &'static str>,
    ) -> (r: Result<Self, VerseReferenceError>)
        ensures
            match (number, phrase) {
                (Ok(n), Ok(p)) => r matches Ok(v) && v.number == n && v.phrase == Some(p),
                (Err(e), _) => r matches Err(x) && x.0@ == e@,
                (Ok(_), Err(e)) => r matches Err(x) && x.0@ == e@,
            },
    {
        let n = match number {
            Ok(n) => n,
            Err(e) => {
                return Err(VerseReferenceError::from(e));
            },
        };
        let p = match phrase {
            Ok(p) => p,
            Err(e) => {
                return Err(VerseReferenceError::from(e));
            },
        };
        Ok(Self::new(n, Some(p)))
    }
}

/// One verse, a range of verses, or several of either.
#[derive(Debug)]
pub enum VerseRange {
    Single(Verse),
    Range(Verse, Verse),
    Selection(Vec<VerseRange>),
}

/// The number of a chapter.
#[derive(Debug, PartialEq, Eq)]
pub struct Chapter(pub u16);

impl TryFrom<u16> for Chapter {
    type Error = &'static str;

    /// The chapter number `value`, where it is 1 to 150.
    fn try_from(value: u16) -> (r: Result<Self, &'static str>) {
        if value < 1 || value > 150 {
            Err(INVALID_CHAPTER)
        } else {
            Ok(Chapter(value))
        }
    }
}

impl TryFromSpecImpl<u16> for Chapter {
    open spec fn obeys_try_from_spec() -> bool {
        true
    }

    open spec fn try_from_spec(value: u16) -> Result<Self, Self::Error> {
        if value < 1 || value > 150 {
            Err(INVALID_CHAPTER)
        } else {
            Ok(Chapter(value))
        }
    }
}

/// A reference to a verse, or to a part of it, of a chapter of a book.
#[derive(Debug)]
pub struct VerseReference {
    pub book: Book,
    pub chapter: Chapter,
    pub verse: Verse,
}

impl VerseReference {
    /// The reference to the part of a verse that the four arguments
    /// hold, or the first error among them, in the order book, chapter,
    /// verse, phrase. Nothing is held against the book's chapters or the
    /// chapter's verses.
    pub fn partial_verse_unchecked(
        book: Result<Book, String>,
        chapter: Result<Chapter, &'static str>,
        verse: Result<VerseNumber, &'static str>,
        phrase: Result<VersePhrase, &'static str>,
    ) -> (r: Result<Self, VerseReferenceError>)
        ensures
            match (book, chapter, verse, phrase) {
                (Ok(b), Ok(c), Ok(v), Ok(p)) => r matches Ok(x) && x.book == b && x.chapter == c
                    && x.verse.number == v && x.verse.phrase == Some(p),
                (Err(e), _, _, _) => r matches Err(x) && x.0 == e,
                (Ok(_), Err(e), _, _) => r matches Err(x) && x.0@ == e@,
                (Ok(_), Ok(_), Err(e), _) => r matches Err(x) && x.0@ == e@,
                (Ok(_), Ok(_), Ok(_), Err(e)) => r matches Err(x) && x.0@ == e@,
            },
    {
        let book = match book {
            Ok(b) => b,
            Err(e) => {
                return Err(VerseReferenceError::from(e));
            },
        };
        let chapter = match chapter {
            Ok(c) => c,
            Err(e) => {
                return Err(VerseReferenceError::from(e));
            },
        };
        Ok(Self { book, chapter, verse: Verse::partial(verse, phrase)? })
    }

    /// The reference to the verse that the three arguments hold, or the
    /// first error among them, in the order book, chapter, verse. Nothing
    /// is held against the book's chapters or the chapter's verses.
    pub fn verse_unchecked(
        book: Result<Book, String>,
        chapter: Result<Chapter, &'static str>,
        verse: Result<VerseNumber, &'static str>,
    ) -> (r: Result<Self, VerseReferenceError>)
        ensures
            match (book, chapter, verse) {
                (Ok(b), Ok(c), Ok(v)) => r matches Ok(x) && x.book == b && x.chapter == c
                    && x.verse.number == v && x.verse.phrase is None,
                (Err(e), _, _) => r matches Err(x) && x.0 == e,
                (Ok(_), Err(e), _) => r matches Err(x) && x.0@ == e@,
                (Ok(_), Ok(_), Err(e)) => r matches Err(x) && x.0@ == e@,
            },
    {
        let book = match book {
            Ok(b) => b,
            Err(e) => {
                return Err(VerseReferenceError::from(e));
            },
        };
        let chapter = match chapter {
            Ok(c) => c,
            Err(e) => {
                return Err(VerseReferenceError::from(e));
            },
        };
        Ok(Self { book, chapter, verse: Verse::whole(verse)? })
    }
}

/// A reference to scripture: a verse, a passage, or several verses.
#[derive(Debug)]
pub enum ScriptureReference {
    Verse(VerseReference),
    Passage(VerseReference, VerseReference),
    Selection(Vec<VerseReference>),
}

} // verus!
