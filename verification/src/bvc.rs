//! Books, chapters, verses and verse parts, each valid by construction, and
//! the table that says how many chapters a book has and how many verses
//! each chapter holds.

use crate::lexer::book_token::BookToken;
use crate::text::{
    ascii_lower_text, decimal, digit_char, is_digit, lemma_decimal, lowercase,
    number_error_name, parse_u8, parse_u8_str, same_text, to_lowercase, u32_to_string,
    u8_to_string,
};
use vstd::prelude::*;
use vstd::std_specs::convert::TryFromSpecImpl;
use vstd::string::StringExecFns;

verus! {

/// The books that the library knows.
#[derive(Debug, Clone, Copy, PartialEq, Eq, Hash, Structural)]
pub enum Book {
    Genesis,
    Exodus,
    FirstKings,
    Psalms,
    SongOfSongs,
    Obadiah,
    Matthew,
    John,
    ThirdJohn,
    Revelation,
}

/// The number of verses in each chapter of Genesis.
pub const GENESIS_VERSES: [u8; 50] = [
    31, 25, 24, 26, 32, 22, 24, 22, 29, 32, 32, 20, 18, 24, 21, 16, 27, 33, 38, 18, 34, 24, 20,
    67, 34, 35, 46, 22, 35, 43, 55, 32, 20, 31, 29, 43, 36, 30, 23, 23, 57, 38, 34, 34, 28, 34,
    31, 22, 33, 26,
];

/// The number of verses in each chapter of Exodus.
pub const EXODUS_VERSES: [u8; 40] = [
    23, 35, 29, 15, 33, 34, 28, 23, 23, 35, 35, 27, 22, 22, 25, 33, 22, 24, 19, 16, 31, 21, 15,
    22, 29, 22, 31, 29, 20, 23, 28, 20, 18, 23, 16, 31, 23, 17, 22, 16,
];

/// The number of verses in each chapter of 1 Kings.
pub const FIRST_KINGS_VERSES: [u8; 22] = [
    53, 46, 28, 20, 32, 38, 51, 66, 28, 29, 43, 33, 34, 31, 34, 34, 24, 46, 21, 43, 29, 54,
];

/// The number of verses in each chapter of Psalms.
pub const PSALMS_VERSES: [u8; 150] = [
    6, 11, 9, 9, 13, 11, 18, 10, 21, 18, 7, 9, 6, 7, 5, 11, 15, 51, 15, 10, 14, 32, 6, 10, 22,
    11, 14, 9, 11, 13, 25, 11, 22, 23, 28, 13, 40, 23, 14, 18, 14, 12, 5, 27, 18, 12, 10, 15,
    21, 23, 21, 11, 7, 9, 24, 14, 12, 12, 18, 14, 9, 13, 12, 11, 14, 20, 8, 36, 37, 6, 24, 20,
    28, 23, 11, 13, 21, 72, 13, 20, 17, 8, 19, 13, 14, 17, 7, 19, 53, 17, 16, 16, 5, 23, 11,
    13, 12, 9, 9, 5, 8, 29, 22, 35, 45, 48, 43, 14, 31, 7, 10, 10, 9, 8, 18, 19, 2, 29, 176, 7,
    8, 9, 4, 8, 5, 6, 5, 6, 8, 8, 3, 18, 3, 3, 21, 26, 9, 8, 24, 14, 10, 8, 12, 15, 21, 10, 20,
    14, 9, 6,
];

/// The number of verses in each chapter of Song of Songs.
pub const SONG_OF_SONGS_VERSES: [u8; 8] = [
    17, 17, 13, 16, 17, 15, 20, 14,
];

/// The number of verses in each chapter of Obadiah.
pub const OBADIAH_VERSES: [u8; 1] = [
    21,
];

/// The number of verses in each chapter of Matthew.
pub const MATTHEW_VERSES: [u8; 28] = [
    25, 23, 17, 25, 48, 34, 29, 34, 38, 42, 30, 50, 58, 36, 39, 28, 27, 35, 30, 34, 46, 46, 39,
    51, 46, 75, 66, 20,
];

/// The number of verses in each chapter of John.
pub const JOHN_VERSES: [u8; 21] = [
    51, 25, 36, 54, 47, 71, 53, 59, 41, 42, 57, 50, 38, 31, 27, 33, 26, 40, 42, 31, 25,
];

/// The number of verses in each chapter of 3 John.
pub const THIRD_JOHN_VERSES: [u8; 1] = [
    15,
];

/// The number of verses in each chapter of Revelation.
pub const REVELATION_VERSES: [u8; 22] = [
    20, 29, 22, 11, 14, 17, 17, 13, 21, 11, 19, 18, 18, 20, 8, 21, 18, 24, 21, 15, 27, 21,
];

impl Book {
    /// The permanent number of the book. It does not depend on any canon.
    pub open spec fn spec_id(self) -> u8 {
        match self {
            Book::Genesis => 1,
            Book::Exodus => 2,
            Book::FirstKings => 11,
            Book::Psalms => 19,
            Book::SongOfSongs => 22,
            Book::Obadiah => 31,
            Book::Matthew => 40,
            Book::John => 43,
            Book::ThirdJohn => 64,
            Book::Revelation => 66,
        }
    }

    /// The number of chapters in the book.
    pub open spec fn chapters(self) -> u8 {
        match self {
            Book::Genesis => 50,
            Book::Exodus => 40,
            Book::FirstKings => 22,
            Book::Psalms => 150,
            Book::SongOfSongs => 8,
            Book::Obadiah => 1,
            Book::Matthew => 28,
            Book::John => 21,
            Book::ThirdJohn => 1,
            Book::Revelation => 22,
        }
    }

    /// The number of verses in each chapter of the book, chapter 1 first.
    pub open spec fn verse_table(self) -> Seq<u8> {
        match self {
            Book::Genesis => GENESIS_VERSES@,
            Book::Exodus => EXODUS_VERSES@,
            Book::FirstKings => FIRST_KINGS_VERSES@,
            Book::Psalms => PSALMS_VERSES@,
            Book::SongOfSongs => SONG_OF_SONGS_VERSES@,
            Book::Obadiah => OBADIAH_VERSES@,
            Book::Matthew => MATTHEW_VERSES@,
            Book::John => JOHN_VERSES@,
            Book::ThirdJohn => THIRD_JOHN_VERSES@,
            Book::Revelation => REVELATION_VERSES@,
        }
    }

    /// The number of verses in chapter `chapter` of the book.
    pub open spec fn verses_in(self, chapter: int) -> u8
        recommends
            1 <= chapter <= self.chapters(),
    {
        self.verse_table()[chapter - 1]
    }

    /// The name under which the book is printed.
    pub open spec fn display_name(self) -> Seq<char> {
        match self {
            Book::Genesis => "Genesis"@,
            Book::Exodus => "Exodus"@,
            Book::FirstKings => "1 Kings"@,
            Book::Psalms => "Psalms"@,
            Book::SongOfSongs => "Song of Songs"@,
            Book::Obadiah => "Obadiah"@,
            Book::Matthew => "Matthew"@,
            Book::John => "John"@,
            Book::ThirdJohn => "3 John"@,
            Book::Revelation => "Revelation"@,
        }
    }

    /// The name of the book as an identifier.
    pub open spec fn debug_name(self) -> Seq<char> {
        match self {
            Book::Genesis => "Genesis"@,
            Book::Exodus => "Exodus"@,
            Book::FirstKings => "FirstKings"@,
            Book::Psalms => "Psalms"@,
            Book::SongOfSongs => "SongOfSongs"@,
            Book::Obadiah => "Obadiah"@,
            Book::Matthew => "Matthew"@,
            Book::John => "John"@,
            Book::ThirdJohn => "ThirdJohn"@,
            Book::Revelation => "Revelation"@,
        }
    }

    /// The table has one entry for each chapter.
    pub proof fn lemma_table_len(self)
        ensures
            self.verse_table().len() == self.chapters(),
            1 <= self.chapters() <= 150,
    {
    }

    /// Every chapter has at least one verse, and none has more than 176.
    pub proof fn lemma_table_bounds(self, chapter: int)
        requires
            1 <= chapter <= self.chapters(),
        ensures
            1 <= self.verses_in(chapter) <= 176,
    {
        let t = self.verse_table();
        assert(forall|i: int| 0 <= i < t.len() ==> 1 <= #[trigger] t[i] <= 176);
    }

    /// The permanent number of the book.
    pub fn id(&self) -> (r: u8)
        ensures
            r == self.spec_id(),
    {
        match self {
            Book::Genesis => 1,
            Book::Exodus => 2,
            Book::FirstKings => 11,
            Book::Psalms => 19,
            Book::SongOfSongs => 22,
            Book::Obadiah => 31,
            Book::Matthew => 40,
            Book::John => 43,
            Book::ThirdJohn => 64,
            Book::Revelation => 66,
        }
    }

    /// Returns the number of chapters in the book.
    pub fn chapter_count(&self) -> (r: u8)
        ensures
            r == self.chapters(),
            1 <= r <= 150,
    {
        match self {
            Book::Genesis => 50,
            Book::Exodus => 40,
            Book::FirstKings => 22,
            Book::Psalms => 150,
            Book::SongOfSongs => 8,
            Book::Obadiah => 1,
            Book::Matthew => 28,
            Book::John => 21,
            Book::ThirdJohn => 1,
            Book::Revelation => 22,
        }
    }

    /// Returns the greatest number of verses of each chapter of the book,
    /// chapter 1 first.
    pub fn max_verse_count_by_chapter(&self) -> (r: &'static [u8])
        ensures
            r@ == self.verse_table(),
            r@.len() == self.chapters(),
    {
        match self {
            Book::Genesis => &GENESIS_VERSES,
            Book::Exodus => &EXODUS_VERSES,
            Book::FirstKings => &FIRST_KINGS_VERSES,
            Book::Psalms => &PSALMS_VERSES,
            Book::SongOfSongs => &SONG_OF_SONGS_VERSES,
            Book::Obadiah => &OBADIAH_VERSES,
            Book::Matthew => &MATTHEW_VERSES,
            Book::John => &JOHN_VERSES,
            Book::ThirdJohn => &THIRD_JOHN_VERSES,
            Book::Revelation => &REVELATION_VERSES,
        }
    }

    /// The name under which the book is printed.
    pub fn name(&self) -> (r: &'static str)
        ensures
            r@ == self.display_name(),
    {
        match self {
            Book::Genesis => "Genesis",
            Book::Exodus => "Exodus",
            Book::FirstKings => "1 Kings",
            Book::Psalms => "Psalms",
            Book::SongOfSongs => "Song of Songs",
            Book::Obadiah => "Obadiah",
            Book::Matthew => "Matthew",
            Book::John => "John",
            Book::ThirdJohn => "3 John",
            Book::Revelation => "Revelation",
        }
    }

    /// The name of the book as an identifier.
    pub fn variant_name(&self) -> (r: &'static str)
        ensures
            r@ == self.debug_name(),
    {
        match self {
            Book::Genesis => "Genesis",
            Book::Exodus => "Exodus",
            Book::FirstKings => "FirstKings",
            Book::Psalms => "Psalms",
            Book::SongOfSongs => "SongOfSongs",
            Book::Obadiah => "Obadiah",
            Book::Matthew => "Matthew",
            Book::John => "John",
            Book::ThirdJohn => "ThirdJohn",
            Book::Revelation => "Revelation",
        }
    }

    /// Returns the greatest number of verses that chapter `chapter` of the
    /// book can have, or a message where the book has no such chapter.
    pub fn max_verses_in_chapter(&self, chapter: u8) -> (r: Result<u8, String>)
        ensures
            r is Ok <==> 1 <= chapter <= self.chapters(),
            r matches Ok(n) ==> n == self.verses_in(chapter as int),
            r matches Err(m) ==> m@ == chapter_out_of_range_message(self.debug_name(), chapter),
    {
        match table_entry(self.max_verse_count_by_chapter(), chapter) {
            Some(n) => Ok(n),
            None => Err(chapter_out_of_range(self.variant_name(), chapter)),
        }
    }

    /// The number of verses in the whole book.
    pub open spec fn total_verses(self) -> nat {
        table_sum(self.verse_table())
    }

    /// Returns the number of verses in the whole book, for a book that has
    /// no more than 255 of them.
    pub fn verse_count(&self) -> (r: u8)
        requires
            self.total_verses() <= u8::MAX,
        ensures
            r == self.total_verses(),
    {
        table_total(self.max_verse_count_by_chapter())
    }
}

/// The entry of `table` for chapter `chapter`, where the table has one:
/// the chapters are counted from 1, up to the length of the table.
pub open spec fn table_lookup(table: Seq<u8>, chapter: u8) -> Option<u8> {
    if 1 <= chapter <= table.len() {
        Some(table[chapter - 1])
    } else {
        None
    }
}

/// Looks up the entry of `table` for chapter `chapter`.
pub fn table_entry(table: &[u8], chapter: u8) -> (r: Option<u8>)
    ensures
        r == table_lookup(table@, chapter),
{
    if chapter < 1 || chapter as usize > table.len() {
        None
    } else {
        Some(table[chapter as usize - 1])
    }
}

/// Adds up the entries of `table`, where their sum is no more than 255.
pub fn table_total(table: &[u8]) -> (r: u8)
    requires
        table_sum(table@) <= u8::MAX,
    ensures
        r == table_sum(table@),
{
    let mut total: u8 = 0;
    let mut i: usize = 0;
    while i < table.len()
        invariant
            i <= table@.len(),
            total == table_sum(table@.take(i as int)),
            table_sum(table@) <= u8::MAX,
        decreases table.len() - i,
    {
        proof {
            lemma_table_sum_step(table@, i as int);
            lemma_table_sum_prefix(table@, i as int + 1);
        }
        total = total + table[i];
        i = i + 1;
    }
    proof {
        assert(table@.take(i as int) =~= table@);
    }
    total
}

/// Writes the message for a chapter that `name` does not have.
pub fn chapter_out_of_range(name: &str, chapter: u8) -> (r: String)
    ensures
        r@ == chapter_out_of_range_message(name@, chapter),
{
    let mut m = String::from_str("Chapter ");
    m.append(u8_to_string(chapter).as_str());
    m.append(" is out of range for ");
    m.append(name);
    m
}

/// The sum of the entries of `table`.
pub open spec fn table_sum(table: Seq<u8>) -> nat
    decreases table.len(),
{
    if table.len() == 0 {
        0
    } else {
        table_sum(table.drop_last()) + table.last() as nat
    }
}

/// The sum grows by the next entry.
proof fn lemma_table_sum_step(table: Seq<u8>, i: int)
    requires
        0 <= i < table.len(),
    ensures
        table_sum(table.take(i + 1)) == table_sum(table.take(i)) + table[i],
{
    assert(table.take(i + 1).drop_last() =~= table.take(i));
}

/// The sum of the first entries is no more than the sum of all.
proof fn lemma_table_sum_prefix(table: Seq<u8>, i: int)
    requires
        0 <= i <= table.len(),
    ensures
        table_sum(table.take(i)) <= table_sum(table),
    decreases table.len() - i,
{
    if i == table.len() {
        assert(table.take(i) =~= table);
    } else {
        lemma_table_sum_step(table, i);
        lemma_table_sum_prefix(table, i + 1);
    }
}

/// The message for a chapter that the book named `name` does not have.
pub open spec fn chapter_out_of_range_message(name: Seq<char>, chapter: u8) -> Seq<char> {
    "Chapter "@ + decimal(chapter as nat) + " is out of range for "@ + name
}

/// The message for a chapter number outside 1 to 150.
pub open spec fn chapter_number_message(value: u8) -> Seq<char> {
    "chapter "@ + decimal(value as nat)
        + " is out of range; must be positive and not greater than 150"@
}

/// The message for a verse number outside 1 to 176.
pub open spec fn verse_number_message(value: u8) -> Seq<char> {
    "verse "@ + decimal(value as nat) + " out of range; must be positive and not greater than 176"@
}

/// The message for a verse part that is not one of the letters a to d.
pub open spec fn verse_part_message(value: u8) -> Seq<char> {
    "verse phrase "@ + decimal(value as nat)
        + " is not valid, must be a single letter from a to d"@
}

/// The message for a chapter number that is greater than the book's last.
pub open spec fn chapter_count_message(book: Book, number: u8) -> Seq<char> {
    book.display_name() + " has "@ + decimal(book.chapters() as nat) + " chapters, not "@
        + decimal(number as nat)
}

/// How a chapter is printed: the book's name, a space, the number.
pub open spec fn chapter_text(book: Book, number: u8) -> Seq<char> {
    book.display_name() + " "@ + decimal(number as nat)
}

/// How a verse is printed: the book's name, a space, the chapter, a colon, the verse.
pub open spec fn verse_text(book: Book, chapter: u8, verse: u8) -> Seq<char> {
    book.display_name() + " "@ + decimal(chapter as nat) + ":"@ + decimal(verse as nat)
}

/// The message for a verse number that is greater than the chapter's last.
pub open spec fn verse_count_message(book: Book, chapter: u8, verse: u8) -> Seq<char> {
    chapter_text(book, chapter) + " has at most "@ + decimal(
        book.verses_in(chapter as int) as nat,
    ) + " verses, not "@ + decimal(verse as nat)
}

/// The number of a chapter: 1 to 150.
#[derive(Debug, Clone, Copy, PartialEq, Eq, Structural)]
pub struct ChapterNumber(u8);

impl View for ChapterNumber {
    type V = u8;

    closed spec fn view(&self) -> u8 {
        self.0
    }
}

impl ChapterNumber {
    /// A chapter number lies between 1 and 150.
    #[verifier::type_invariant]
    pub open spec fn wf(self) -> bool {
        1 <= self@ <= 150
    }

    /// The chapter number `value`, or a message where it is not 1 to 150.
    pub fn new(value: u8) -> (r: Result<Self, String>)
        ensures
            r is Ok <==> 1 <= value <= 150,
            r matches Ok(n) ==> n@ == value && n.wf(),
            r matches Err(m) ==> m@ == chapter_number_message(value),
    {
        if value < 1 || value > 150 {
            let mut m = String::from_str("chapter ");
            m.append(u8_to_string(value).as_str());
            m.append(" is out of range; must be positive and not greater than 150");
            Err(m)
        } else {
            Ok(ChapterNumber(value))
        }
    }

    /// The number itself.
    pub fn get(&self) -> (r: u8)
        ensures
            r == self@,
            1 <= r <= 150,
    {
        proof {
            use_type_invariant(self);
        }
        self.0
    }

    /// The number as a decimal numeral.
    pub fn to_string(&self) -> (r: String)
        ensures
            r@ == decimal(self@ as nat),
    {
        u8_to_string(self.0)
    }
}

impl Default for ChapterNumber {
    /// The first chapter.
    fn default() -> (r: Self)
        ensures
            r@ == 1,
            r.wf(),
    {
        ChapterNumber(1)
    }
}

/// The number of a verse: 1 to 176.
#[derive(Debug, Clone, Copy, PartialEq, Eq, Structural)]
pub struct VerseNumber(u8);

impl View for VerseNumber {
    type V = u8;

    closed spec fn view(&self) -> u8 {
        self.0
    }
}

impl VerseNumber {
    /// A verse number lies between 1 and 176.
    #[verifier::type_invariant]
    pub open spec fn wf(self) -> bool {
        1 <= self@ <= 176
    }

    /// The verse number `value`, or a message where it is not 1 to 176.
    pub fn new(value: u8) -> (r: Result<Self, String>)
        ensures
            r is Ok <==> 1 <= value <= 176,
            r matches Ok(n) ==> n@ == value && n.wf(),
            r matches Err(m) ==> m@ == verse_number_message(value),
    {
        if value < 1 || value > 176 {
            let mut m = String::from_str("verse ");
            m.append(u8_to_string(value).as_str());
            m.append(" out of range; must be positive and not greater than 176");
            Err(m)
        } else {
            Ok(VerseNumber(value))
        }
    }

    /// The number itself.
    pub fn get(&self) -> (r: u8)
        ensures
            r == self@,
            1 <= r <= 176,
    {
        proof {
            use_type_invariant(self);
        }
        self.0
    }

    /// The number as a decimal numeral.
    pub fn to_string(&self) -> (r: String)
        ensures
            r@ == decimal(self@ as nat),
    {
        u8_to_string(self.0)
    }
}

impl Default for VerseNumber {
    /// The first verse.
    fn default() -> (r: Self)
        ensures
            r@ == 1,
            r.wf(),
    {
        VerseNumber(1)
    }
}

/// The label of a part of a verse: one of the letters `a` to `d`, held as
/// its ASCII code.
#[derive(Debug, Clone, Copy, PartialEq, Eq, Structural)]
pub struct VersePartLabel(u8);

impl View for VersePartLabel {
    type V = u8;

    closed spec fn view(&self) -> u8 {
        self.0
    }
}

impl VersePartLabel {
    /// A label is the code of one of the letters `a` to `d`.
    #[verifier::type_invariant]
    pub open spec fn wf(self) -> bool {
        97 <= self@ <= 100
    }

    /// The label with the ASCII code `value`, or a message where that is
    /// not one of the letters `a` to `d`.
    pub fn new(value: u8) -> (r: Result<Self, String>)
        ensures
            r is Ok <==> 97 <= value <= 100,
            r matches Ok(p) ==> p@ == value && p.wf(),
            r matches Err(m) ==> m@ == verse_part_message(value),
    {
        if value < 97 || value > 100 {
            let mut m = String::from_str("verse phrase ");
            m.append(u8_to_string(value).as_str());
            m.append(" is not valid, must be a single letter from a to d");
            Err(m)
        } else {
            Ok(VersePartLabel(value))
        }
    }

    /// The ASCII code of the label.
    pub fn get(&self) -> (r: u8)
        ensures
            r == self@,
            97 <= r <= 100,
    {
        proof {
            use_type_invariant(self);
        }
        self.0
    }

    /// The last label, `d`.
    pub fn max() -> (r: Self)
        ensures
            r@ == 100,
            r.wf(),
    {
        VersePartLabel(100)
    }

    /// The code of the label's capital letter, as a decimal numeral.
    pub fn to_string(&self) -> (r: String)
        ensures
            r@ == decimal((self@ - 32) as nat),
    {
        proof {
            use_type_invariant(self);
        }
        u8_to_string(self.0 - 32)
    }
}

/// A chapter of a book.
#[derive(Debug, Clone, Copy, PartialEq, Eq, Structural)]
pub struct Chapter {
    book: Book,
    number: ChapterNumber,
}

impl Chapter {
    /// The book that the chapter belongs to.
    pub closed spec fn spec_book(self) -> Book {
        self.book
    }

    /// The number of the chapter.
    pub closed spec fn spec_number(self) -> u8 {
        self.number@
    }

    /// The book has a chapter of this number.
    #[verifier::type_invariant]
    pub open spec fn wf(self) -> bool {
        1 <= self.spec_number() <= self.spec_book().chapters()
    }

    /// The greatest number of verses that the chapter can have.
    pub open spec fn verses(self) -> u8 {
        self.spec_book().verses_in(self.spec_number() as int)
    }

    /// Chapter `number` of `book`, or a message where the book has fewer chapters.
    pub fn new(book: Book, number: ChapterNumber) -> (r: Result<Self, String>)
        ensures
            r is Ok <==> number@ <= book.chapters(),
            r matches Ok(c) ==> c.spec_book() == book && c.spec_number() == number@ && c.wf(),
            r matches Err(m) ==> m@ == chapter_count_message(book, number@),
    {
        if book.chapter_count() < number.get() {
            let mut m = String::from_str(book.name());
            m.append(" has ");
            m.append(u8_to_string(book.chapter_count()).as_str());
            m.append(" chapters, not ");
            m.append(u8_to_string(number.get()).as_str());
            Err(m)
        } else {
            Ok(Chapter { book, number })
        }
    }

    /// The number of the chapter.
    pub fn number(&self) -> (r: ChapterNumber)
        ensures
            r@ == self.spec_number(),
            r.wf(),
    {
        proof {
            use_type_invariant(self);
        }
        self.number
    }

    /// The greatest number of verses that the chapter can have.
    pub fn max_verse_count(&self) -> (r: Result<u8, String>)
        ensures
            r matches Ok(n) && n == self.verses(),
    {
        proof {
            use_type_invariant(self);
        }
        let chapter = self.number.get();
        self.book.max_verses_in_chapter(chapter)
    }

    /// The chapter as it is printed.
    pub fn to_string(&self) -> (r: String)
        ensures
            r@ == chapter_text(self.spec_book(), self.spec_number()),
    {
        let mut r = String::from_str(self.book.name());
        r.append(" ");
        r.append(self.number.to_string().as_str());
        r
    }
}

/// A verse of a chapter of a book.
#[derive(Debug, Clone, Copy, PartialEq, Eq, Structural)]
pub struct Verse {
    book: Book,
    chapter: Chapter,
    number: VerseNumber,
}

impl Verse {
    /// The book that the verse belongs to.
    pub closed spec fn spec_book(self) -> Book {
        self.book
    }

    /// The chapter that the verse belongs to.
    pub closed spec fn spec_chapter(self) -> Chapter {
        self.chapter
    }

    /// The number of the verse.
    pub closed spec fn spec_number(self) -> u8 {
        self.number@
    }

    /// The chapter exists in the book and has a verse of this number.
    #[verifier::type_invariant]
    pub open spec fn wf(self) -> bool {
        &&& self.spec_chapter().wf()
        &&& self.spec_chapter().spec_book() == self.spec_book()
        &&& 1 <= self.spec_number() <= self.spec_chapter().verses()
    }

    /// Verse `verse` of chapter `chapter` of `book`, or a message where
    /// the book has no such chapter or the chapter no such verse.
    pub fn new(book: Book, chapter: ChapterNumber, verse: VerseNumber) -> (r: Result<Self, String>)
        ensures
            r is Ok <==> chapter@ <= book.chapters() && verse@ <= book.verses_in(chapter@ as int),
            r matches Ok(v) ==> {
                &&& v.spec_book() == book
                &&& v.spec_chapter().spec_number() == chapter@
                &&& v.spec_number() == verse@
                &&& v.wf()
            },
            r matches Err(m) ==> m@ == (if chapter@ > book.chapters() {
                chapter_count_message(book, chapter@)
            } else {
                verse_count_message(book, chapter@, verse@)
            }),
    {
        let chapter = Chapter::new(book, chapter)?;
        let max_verse_count = chapter.max_verse_count()?;
        if max_verse_count < verse.get() {
            let mut m = chapter.to_string();
            m.append(" has at most ");
            m.append(u8_to_string(max_verse_count).as_str());
            m.append(" verses, not ");
            m.append(u8_to_string(verse.get()).as_str());
            Err(m)
        } else {
            Ok(Verse { book, chapter, number: verse })
        }
    }

    /// The chapter that the verse belongs to.
    pub fn chapter(&self) -> (r: Chapter)
        ensures
            r == self.spec_chapter(),
            r.wf(),
    {
        proof {
            use_type_invariant(self);
        }
        self.chapter
    }

    /// The number of the verse.
    pub fn number(&self) -> (r: VerseNumber)
        ensures
            r@ == self.spec_number(),
            r.wf(),
    {
        proof {
            use_type_invariant(self);
            use_type_invariant(&self.number);
        }
        self.number
    }

    /// The verse as it is printed.
    pub fn to_string(&self) -> (r: String)
        ensures
            r@ == verse_text(
                self.spec_book(),
                self.spec_chapter().spec_number(),
                self.spec_number(),
            ),
    {
        let mut r = String::from_str(self.book.name());
        r.append(" ");
        r.append(self.chapter.number().to_string().as_str());
        r.append(":");
        r.append(self.number.to_string().as_str());
        r
    }
}

/// A part of a verse.
#[derive(Debug, Clone, Copy, PartialEq, Eq, Structural)]
pub struct VersePart {
    book: Book,
    chapter: Chapter,
    verse: Verse,
    part: VersePartLabel,
}

impl VersePart {
    /// The book that the part belongs to.
    pub closed spec fn spec_book(self) -> Book {
        self.book
    }

    /// The verse that the part belongs to.
    pub closed spec fn spec_verse(self) -> Verse {
        self.verse
    }

    /// The chapter that the part belongs to.
    pub closed spec fn spec_chapter(self) -> Chapter {
        self.chapter
    }

    /// The ASCII code of the part's label.
    pub closed spec fn spec_label(self) -> u8 {
        self.part@
    }

    /// The verse is valid, the book and chapter are the verse's own, and
    /// the label is one of `a` to `d`.
    #[verifier::type_invariant]
    pub open spec fn wf(self) -> bool {
        &&& self.spec_verse().wf()
        &&& self.spec_book() == self.spec_verse().spec_book()
        &&& self.spec_chapter() == self.spec_verse().spec_chapter()
        &&& 97 <= self.spec_label() <= 100
    }

    /// The part `part` of `verse`.
    pub fn new(verse: Verse, part: VersePartLabel) -> (r: Self)
        ensures
            r.spec_verse() == verse,
            r.spec_label() == part@,
            r.wf(),
    {
        proof {
            use_type_invariant(&verse);
            use_type_invariant(&part);
        }
        VersePart { book: verse.book, chapter: verse.chapter, verse, part }
    }

    /// The verse that the part belongs to.
    pub fn verse(&self) -> (r: Verse)
        ensures
            r == self.spec_verse(),
            r.wf(),
    {
        proof {
            use_type_invariant(self);
        }
        self.verse
    }

    /// The label of the part.
    pub fn part(&self) -> (r: VersePartLabel)
        ensures
            r@ == self.spec_label(),
            r.wf(),
    {
        proof {
            use_type_invariant(self);
        }
        self.part
    }
}

/// The books of the Old Testament that the library knows, in order.
pub const OLD_TESTAMENT: [Book; 5] = [
    Book::Genesis,
    Book::Exodus,
    Book::FirstKings,
    Book::SongOfSongs,
    Book::Obadiah,
];

/// The books of the New Testament that the library knows, in order.
pub const NEW_TESTAMENT: [Book; 1] = [Book::Matthew];

/// The books of both Testaments, the Old Testament first.
pub const BIBLE: [Book; 6] = [
    Book::Genesis,
    Book::Exodus,
    Book::FirstKings,
    Book::SongOfSongs,
    Book::Obadiah,
    Book::Matthew,
];

/// The book that the lower-case name `name` stands for, if it stands for one.
pub open spec fn recognize_book_name(name: Seq<char>) -> Option<Book> {
    if name == "genesis"@ || name == "gen"@ || name == "gn"@ {
        Some(Book::Genesis)
    } else if name == "exodus"@ {
        Some(Book::Exodus)
    } else if name == "1 kings"@ {
        Some(Book::FirstKings)
    } else if name == "psalms"@ {
        Some(Book::Psalms)
    } else if name == "song of songs"@ || name == "song of solomon"@ {
        Some(Book::SongOfSongs)
    } else if name == "obadiah"@ {
        Some(Book::Obadiah)
    } else if name == "matthew"@ {
        Some(Book::Matthew)
    } else if name == "john"@ {
        Some(Book::John)
    } else if name == "3 john"@ {
        Some(Book::ThirdJohn)
    } else if name == "revelation"@ {
        Some(Book::Revelation)
    } else {
        None
    }
}

/// The book that a literal stands for, with or without a number in front.
pub open spec fn resolve_book(number: Option<u8>, token: BookToken) -> Option<Book> {
    match (number, token) {
        (None, BookToken::Genesis) => Some(Book::Genesis),
        (None, BookToken::Exodus) => Some(Book::Exodus),
        (Some(n), BookToken::Kings) => if n == 1 {
            Some(Book::FirstKings)
        } else {
            None
        },
        (None, BookToken::Psalms) => Some(Book::Psalms),
        (None, BookToken::Obadiah) => Some(Book::Obadiah),
        (None, BookToken::Matthew) => Some(Book::Matthew),
        (None, BookToken::John) => Some(Book::John),
        (Some(n), BookToken::John) => if n == 3 {
            Some(Book::ThirdJohn)
        } else {
            None
        },
        (None, BookToken::Revelation) => Some(Book::Revelation),
        _ => None,
    }
}

/// How a literal is written with the number in front of it, if it has one.
pub open spec fn numbered_name(number: Option<u8>, token: BookToken) -> Seq<char> {
    match number {
        Some(n) => decimal(n as nat) + " "@ + token.text(),
        None => token.text(),
    }
}

/// A literal with the number in front of it, if it has one, stands for
/// the book that its written form is the name of, whatever the case of
/// its letters.
pub proof fn law_numbered_name_is_recognized(number: Option<u8>, token: BookToken)
    ensures
        recognize_book_name(ascii_lower_text(numbered_name(number, token))) == resolve_book(
            number,
            token,
        ),
{
    reveal_strlit("genesis");
    reveal_strlit("gen");
    reveal_strlit("gn");
    reveal_strlit("exodus");
    reveal_strlit("1 kings");
    reveal_strlit("psalms");
    reveal_strlit("song of songs");
    reveal_strlit("song of solomon");
    reveal_strlit("obadiah");
    reveal_strlit("matthew");
    reveal_strlit("john");
    reveal_strlit("3 john");
    reveal_strlit("revelation");
    reveal_strlit("Genesis");
    reveal_strlit("Exodus");
    reveal_strlit("Kings");
    reveal_strlit("Psalms");
    reveal_strlit("Obadiah");
    reveal_strlit("Matthew");
    reveal_strlit("John");
    reveal_strlit("Revelation");
    reveal_strlit(" ");
    assert("genesis"@[0] == 'g' && "gen"@[0] == 'g' && "gn"@[0] == 'g' && "exodus"@[0] == 'e');
    assert("1 kings"@[0] == '1' && "1 kings"@[1] == ' ' && "1 kings"@[2] == 'k');
    assert("3 john"@[0] == '3' && "3 john"@[1] == ' ' && "3 john"@[2] == 'j');
    assert("psalms"@[0] == 'p' && "song of songs"@[0] == 's' && "song of solomon"@[0] == 's');
    assert("obadiah"@[0] == 'o' && "matthew"@[0] == 'm' && "john"@[0] == 'j');
    assert("revelation"@[0] == 'r');
    let text = token.text();
    let name = numbered_name(number, token);
    let lower = ascii_lower_text(name);
    assert(text.len() >= 4);
    assert(text[0] == 'G' || text[0] == 'E' || text[0] == 'K' || text[0] == 'P' || text[0] == 'O'
        || text[0] == 'M' || text[0] == 'J' || text[0] == 'R');
    match number {
        None => {
            assert(lower[0] == crate::text::ascii_lower(text[0]));
            match token {
                BookToken::Genesis => {
                    assert(lower =~= "genesis"@);
                },
                BookToken::Exodus => {
                    assert(lower =~= "exodus"@);
                },
                BookToken::Kings => {},
                BookToken::Psalms => {
                    assert(lower =~= "psalms"@);
                },
                BookToken::Obadiah => {
                    assert(lower =~= "obadiah"@);
                },
                BookToken::Matthew => {
                    assert(lower =~= "matthew"@);
                },
                BookToken::John => {
                    assert(lower =~= "john"@);
                },
                BookToken::Revelation => {
                    assert(lower =~= "revelation"@);
                },
            }
        },
        Some(n) => {
            let digits = decimal(n as nat);
            lemma_decimal(n as nat);
            assert(" "@ =~= seq![' ']);
            assert(name.len() == digits.len() + 1 + text.len());
            assert(name[0] == digits[0]);
            assert(is_digit(digits[0]));
            assert(lower[0] == digits[0]);
            if n < 10 {
                assert(digits.len() == 1);
                assert(digits[0] == digit_char(n as nat));
                assert(name[1] == ' ');
                assert(name[2] == text[0]);
                assert(lower[1] == ' ');
                assert(lower[2] == crate::text::ascii_lower(text[0]));
                if n == 1 && token == BookToken::Kings {
                    assert(lower =~= "1 kings"@);
                }
                if n == 3 && token == BookToken::John {
                    assert(lower =~= "3 john"@);
                }
            } else {
                lemma_decimal((n / 10) as nat);
                assert(digits.len() >= 2);
                assert(name[1] == digits[1]);
                assert(is_digit(digits[1]));
                assert(lower[1] == digits[1]);
            }
        },
    }
}

/// The message for a name that stands for no book.
pub open spec fn unknown_book_message(name: Seq<char>) -> Seq<char> {
    "not a valid book: "@ + name
}

/// The message for a text that is not the numeral of a chapter or verse.
pub open spec fn not_a_number_message(value: Seq<char>, kind: Seq<char>) -> Seq<char> {
    "not a valid chapter number: "@ + value + "; error: "@ + kind
}

impl Book {
    /// The books of the Old Testament that the library knows.
    pub fn old_testament() -> (r: &'static [Self])
        ensures
            r@ == OLD_TESTAMENT@,
    {
        &OLD_TESTAMENT
    }

    /// The books of the New Testament that the library knows.
    pub fn new_testament() -> (r: &'static [Self])
        ensures
            r@ == NEW_TESTAMENT@,
    {
        &NEW_TESTAMENT
    }

    /// The books of both Testaments: the Old Testament, then the New.
    pub fn bible() -> (r: &'static [Self])
        ensures
            r@ == BIBLE@,
            r@ == OLD_TESTAMENT@ + NEW_TESTAMENT@,
    {
        assert(BIBLE@ =~= OLD_TESTAMENT@ + NEW_TESTAMENT@);
        &BIBLE
    }

    /// The book as it is printed.
    pub fn to_string(&self) -> (r: String)
        ensures
            r@ == self.display_name(),
    {
        String::from_str(self.name())
    }

    /// The book that the lower-case name `normalized` stands for, or a
    /// message that quotes `given` where it stands for none.
    pub fn from_normalized(normalized: &str, given: &str) -> (r: Result<Book, String>)
        ensures
            r.ok() == recognize_book_name(normalized@),
            r matches Err(m) ==> m@ == unknown_book_message(given@),
    {
        if same_text(normalized, "genesis") || same_text(normalized, "gen") || same_text(
            normalized,
            "gn",
        ) {
            Ok(Book::Genesis)
        } else if same_text(normalized, "exodus") {
            Ok(Book::Exodus)
        } else if same_text(normalized, "1 kings") {
            Ok(Book::FirstKings)
        } else if same_text(normalized, "psalms") {
            Ok(Book::Psalms)
        } else if same_text(normalized, "song of songs") || same_text(
            normalized,
            "song of solomon",
        ) {
            Ok(Book::SongOfSongs)
        } else if same_text(normalized, "obadiah") {
            Ok(Book::Obadiah)
        } else if same_text(normalized, "matthew") {
            Ok(Book::Matthew)
        } else if same_text(normalized, "john") {
            Ok(Book::John)
        } else if same_text(normalized, "3 john") {
            Ok(Book::ThirdJohn)
        } else if same_text(normalized, "revelation") {
            Ok(Book::Revelation)
        } else {
            let mut m = String::from_str("not a valid book: ");
            m.append(given);
            Err(m)
        }
    }
}

impl<'a> TryFrom<&'a str> for Book {
    type Error = String;

    /// The book that `value` names, whatever its case.
    fn try_from(value: &'a str) -> (r: Result<Self, String>)
        ensures
            r.ok() == recognize_book_name(lowercase(value@)),
            r matches Err(m) ==> m@ == unknown_book_message(value@),
    {
        let normalized = to_lowercase(value);
        Book::from_normalized(normalized.as_str(), value)
    }
}

impl<'a> TryFromSpecImpl<&'a str> for Book {
    open spec fn obeys_try_from_spec() -> bool {
        false
    }

    open spec fn try_from_spec(v: &'a str) -> Result<Self, Self::Error> {
        arbitrary()
    }
}

impl<'a> TryFrom<(Option<u8>, &'a BookToken)> for Book {
    type Error = String;

    /// The book that a literal stands for, with or without a number in
    /// front, or a message that quotes the two where they name no book.
    fn try_from(value: (Option<u8>, &'a BookToken)) -> (r: Result<Self, String>)
        ensures
            r.ok() == resolve_book(value.0, *value.1),
            r matches Err(m) ==> m@ == unknown_book_message(numbered_name(value.0, *value.1)),
    {
        let (number, token) = value;
        let book = match (number, *token) {
            (None, BookToken::Genesis) => Some(Book::Genesis),
            (None, BookToken::Exodus) => Some(Book::Exodus),
            (Some(1), BookToken::Kings) => Some(Book::FirstKings),
            (None, BookToken::Psalms) => Some(Book::Psalms),
            (None, BookToken::Obadiah) => Some(Book::Obadiah),
            (None, BookToken::Matthew) => Some(Book::Matthew),
            (None, BookToken::John) => Some(Book::John),
            (Some(3), BookToken::John) => Some(Book::ThirdJohn),
            (None, BookToken::Revelation) => Some(Book::Revelation),
            _ => None,
        };
        match book {
            Some(b) => Ok(b),
            None => {
                let mut m = String::from_str("not a valid book: ");
                match number {
                    Some(n) => {
                        let mut name = u8_to_string(n);
                        name.append(" ");
                        name.append(token.as_str());
                        m.append(name.as_str());
                    },
                    None => {
                        m.append(token.as_str());
                    },
                }
                Err(m)
            },
        }
    }
}

impl<'a> TryFromSpecImpl<(Option<u8>, &'a BookToken)> for Book {
    open spec fn obeys_try_from_spec() -> bool {
        false
    }

    open spec fn try_from_spec(v: (Option<u8>, &'a BookToken)) -> Result<Self, Self::Error> {
        arbitrary()
    }
}

impl TryFrom<u8> for ChapterNumber {
    type Error = String;

    /// The chapter number `value`, or a message where it is not 1 to 150.
    fn try_from(value: u8) -> (r: Result<Self, String>)
        ensures
            r is Ok <==> 1 <= value <= 150,
            r matches Ok(n) ==> n@ == value && n.wf(),
            r matches Err(m) ==> m@ == chapter_number_message(value),
    {
        ChapterNumber::new(value)
    }
}

impl TryFromSpecImpl<u8> for ChapterNumber {
    open spec fn obeys_try_from_spec() -> bool {
        false
    }

    open spec fn try_from_spec(v: u8) -> Result<Self, Self::Error> {
        arbitrary()
    }
}

impl<'a> TryFrom<&'a str> for ChapterNumber {
    type Error = String;

    /// The chapter number that `value` writes, or a message where it
    /// writes no number or one that is not 1 to 150.
    fn try_from(value: &'a str) -> (r: Result<Self, String>)
        ensures
            r is Ok <==> (parse_u8(value@) matches Ok(n) && 1 <= n <= 150),
            r matches Ok(c) ==> parse_u8(value@) == Ok::<u8, crate::text::NumberError>(c@)
                && c.wf(),
            r matches Err(m) ==> m@ == (match parse_u8(value@) {
                Ok(n) => chapter_number_message(n),
                Err(e) => not_a_number_message(value@, number_error_name(e)),
            }),
    {
        match parse_u8_str(value) {
            Ok(num) => ChapterNumber::new(num),
            Err(e) => {
                let mut m = String::from_str("not a valid chapter number: ");
                m.append(value);
                m.append("; error: ");
                m.append(e.name());
                Err(m)
            },
        }
    }
}

impl<'a> TryFromSpecImpl<&'a str> for ChapterNumber {
    open spec fn obeys_try_from_spec() -> bool {
        false
    }

    open spec fn try_from_spec(v: &'a str) -> Result<Self, Self::Error> {
        arbitrary()
    }
}

impl TryFrom<u8> for VerseNumber {
    type Error = String;

    /// The verse number `value`, or a message where it is not 1 to 176.
    fn try_from(value: u8) -> (r: Result<Self, String>)
        ensures
            r is Ok <==> 1 <= value <= 176,
            r matches Ok(n) ==> n@ == value && n.wf(),
            r matches Err(m) ==> m@ == verse_number_message(value),
    {
        VerseNumber::new(value)
    }
}

impl TryFromSpecImpl<u8> for VerseNumber {
    open spec fn obeys_try_from_spec() -> bool {
        false
    }

    open spec fn try_from_spec(v: u8) -> Result<Self, Self::Error> {
        arbitrary()
    }
}

impl<'a> TryFrom<&'a str> for VerseNumber {
    type Error = String;

    /// The verse number that `value` writes, or a message where it writes
    /// no number or one that is not 1 to 176.
    fn try_from(value: &'a str) -> (r: Result<Self, String>)
        ensures
            r is Ok <==> (parse_u8(value@) matches Ok(n) && 1 <= n <= 176),
            r matches Ok(c) ==> parse_u8(value@) == Ok::<u8, crate::text::NumberError>(c@)
                && c.wf(),
            r matches Err(m) ==> m@ == (match parse_u8(value@) {
                Ok(n) => verse_number_message(n),
                Err(e) => not_a_number_message(value@, number_error_name(e)),
            }),
    {
        match parse_u8_str(value) {
            Ok(num) => VerseNumber::new(num),
            Err(e) => {
                let mut m = String::from_str("not a valid chapter number: ");
                m.append(value);
                m.append("; error: ");
                m.append(e.name());
                Err(m)
            },
        }
    }
}

impl<'a> TryFromSpecImpl<&'a str> for VerseNumber {
    open spec fn obeys_try_from_spec() -> bool {
        false
    }

    open spec fn try_from_spec(v: &'a str) -> Result<Self, Self::Error> {
        arbitrary()
    }
}

/// The ordinal made of four bytes: the book in bits 24 to 31, the chapter
/// in bits 16 to 23, the verse in bits 8 to 15, the part in bits 0 to 7.
pub open spec fn pack(book: u8, chapter: u8, verse: u8, part: u8) -> u32 {
    (book as u32 * 0x100_0000 + chapter as u32 * 0x1_0000 + verse as u32 * 0x100
        + part as u32) as u32
}

/// The four bytes of an ordinal are the four fields it was made of.
pub proof fn lemma_pack_fields(book: u8, chapter: u8, verse: u8, part: u8)
    ensures
        (pack(book, chapter, verse, part) >> 24) & 0xff == book,
        (pack(book, chapter, verse, part) >> 16) & 0xff == chapter,
        (pack(book, chapter, verse, part) >> 8) & 0xff == verse,
        pack(book, chapter, verse, part) & 0xff == part,
{
    let p = pack(book, chapter, verse, part);
    assert(p == (book as u32) << 24 | (chapter as u32) << 16 | (verse as u32) << 8 | (
    part as u32)) by {
        lemma_pack_is_bitwise(book, chapter, verse, part);
    }
    assert(((book as u32) << 24 | (chapter as u32) << 16 | (verse as u32) << 8 | (part as u32))
        >> 24 & 0xff == book as u32) by (bit_vector);
    assert(((book as u32) << 24 | (chapter as u32) << 16 | (verse as u32) << 8 | (part as u32))
        >> 16 & 0xff == chapter as u32) by (bit_vector);
    assert(((book as u32) << 24 | (chapter as u32) << 16 | (verse as u32) << 8 | (part as u32))
        >> 8 & 0xff == verse as u32) by (bit_vector);
    assert(((book as u32) << 24 | (chapter as u32) << 16 | (verse as u32) << 8 | (part as u32))
        & 0xff == part as u32) by (bit_vector);
}

/// Shifting the four fields into place and joining them gives the ordinal.
pub proof fn lemma_pack_is_bitwise(book: u8, chapter: u8, verse: u8, part: u8)
    ensures
        pack(book, chapter, verse, part) == (book as u32) << 24 | (chapter as u32) << 16 | (
        verse as u32) << 8 | (part as u32),
{
    let b = book as u32;
    let c = chapter as u32;
    let v = verse as u32;
    let p = part as u32;
    assert(b << 24 | c << 16 | v << 8 | p == b * 0x100_0000 + c * 0x1_0000 + v * 0x100 + p)
        by (bit_vector)
        requires
            b < 256,
            c < 256,
            v < 256,
            p < 256,
    ;
}

/// An ordinal is greater where its fields, read from the book down, are greater.
pub proof fn lemma_pack_order(b1: u8, c1: u8, v1: u8, p1: u8, b2: u8, c2: u8, v2: u8, p2: u8)
    ensures
        pack(b1, c1, v1, p1) < pack(b2, c2, v2, p2) <==> (b1 < b2 || (b1 == b2 && (c1 < c2 || (c1
            == c2 && (v1 < v2 || (v1 == v2 && p1 < p2)))))),
        pack(b1, c1, v1, p1) == pack(b2, c2, v2, p2) <==> (b1 == b2 && c1 == c2 && v1 == v2 && p1
            == p2),
{
}

/// Joins four bytes into one ordinal.
pub fn pack_fields(book: u8, chapter: u8, verse: u8, part: u8) -> (r: u32)
    ensures
        r == pack(book, chapter, verse, part),
{
    proof {
        lemma_pack_is_bitwise(book, chapter, verse, part);
    }
    (book as u32) << 24 | (chapter as u32) << 16 | (verse as u32) << 8 | (part as u32)
}

/// A place in scripture that does not depend on a canon: the permanent
/// number of the book, then chapter, verse and part.
#[derive(Debug, Clone, Copy, PartialEq, Eq, Structural)]
pub struct ScripturePosition(u32);

impl View for ScripturePosition {
    type V = u32;

    closed spec fn view(&self) -> u32 {
        self.0
    }
}

impl ScripturePosition {
    /// The position of a part of a verse, or of the verse itself where
    /// `part` is `None`.
    pub fn new(
        book: Book,
        chapter: ChapterNumber,
        verse: VerseNumber,
        part: Option<VersePartLabel>,
    ) -> (r: Self)
        ensures
            r@ == pack(
                book.spec_id(),
                chapter@,
                verse@,
                match part {
                    Some(p) => p@,
                    None => 0,
                },
            ),
    {
        let part_byte: u8 = match part {
            Some(p) => p.get(),
            None => 0,
        };
        ScripturePosition(pack_fields(book.id(), chapter.get(), verse.get(), part_byte))
    }

    /// The ordinal itself.
    pub fn get(&self) -> (r: u32)
        ensures
            r == self@,
    {
        self.0
    }

    /// The ordinal as a decimal numeral.
    pub fn to_string(&self) -> (r: String)
        ensures
            r@ == decimal(self@ as nat),
    {
        u32_to_string(self.0)
    }
}

/// What belongs to one book.
pub trait HasBook {
    /// The book that the value belongs to.
    spec fn book_of(&self) -> Book;

    /// The book that the value belongs to.
    fn book(&self) -> (r: Book)
        ensures
            r == self.book_of(),
    ;
}

impl HasBook for Book {
    open spec fn book_of(&self) -> Book {
        *self
    }

    fn book(&self) -> (r: Book) {
        *self
    }
}

impl HasBook for Chapter {
    open spec fn book_of(&self) -> Book {
        self.spec_book()
    }

    fn book(&self) -> (r: Book) {
        assert(self.book_of() == self.book);
        self.book
    }
}

impl HasBook for Verse {
    open spec fn book_of(&self) -> Book {
        self.spec_book()
    }

    fn book(&self) -> (r: Book) {
        assert(self.book_of() == self.book);
        self.book
    }
}

impl HasBook for VersePart {
    open spec fn book_of(&self) -> Book {
        self.spec_book()
    }

    fn book(&self) -> (r: Book) {
        assert(self.book_of() == self.book);
        self.book
    }
}

/// What has a first and a last place in scripture.
pub trait Spanned {
    type Position;

    type Error;

    /// The first place that the value covers.
    fn start(&self) -> Result<Self::Position, Self::Error>;

    /// The last place that the value covers.
    fn end(&self) -> Result<Self::Position, Self::Error>;
}

impl Spanned for Book {
    type Position = ScripturePosition;

    type Error = String;

    /// The first verse of the first chapter.
    fn start(&self) -> (r: Result<ScripturePosition, String>)
        ensures
            r matches Ok(p) && p@ == pack(self.spec_id(), 1, 1, 0),
    {
        Ok(ScripturePosition::new(*self, ChapterNumber::default(), VerseNumber::default(), None))
    }

    /// The last part of the last verse of the last chapter.
    fn end(&self) -> (r: Result<ScripturePosition, String>)
        ensures
            r matches Ok(p) && p@ == pack(
                self.spec_id(),
                self.chapters(),
                self.verses_in(self.chapters() as int),
                100,
            ),
    {
        proof {
            self.lemma_table_bounds(self.chapters() as int);
        }
        let last_chapter = ChapterNumber::try_from(self.chapter_count())?;
        let last_verse = VerseNumber::try_from(self.max_verses_in_chapter(last_chapter.get())?)?;
        Ok(ScripturePosition::new(*self, last_chapter, last_verse, Some(VersePartLabel::max())))
    }
}

impl Spanned for Chapter {
    type Position = ScripturePosition;

    type Error = String;

    /// The first verse of the chapter.
    fn start(&self) -> (r: Result<ScripturePosition, String>)
        ensures
            r matches Ok(p) && p@ == pack(self.spec_book().spec_id(), self.spec_number(), 1, 0),
    {
        Ok(ScripturePosition::new(self.book, self.number, VerseNumber::default(), None))
    }

    /// The last part of the last verse of the chapter.
    fn end(&self) -> (r: Result<ScripturePosition, String>)
        ensures
            r matches Ok(p) && p@ == pack(
                self.spec_book().spec_id(),
                self.spec_number(),
                self.verses(),
                100,
            ),
    {
        proof {
            use_type_invariant(self);
            self.book.lemma_table_bounds(self.number@ as int);
        }
        let last_verse = VerseNumber::try_from(self.max_verse_count()?)?;
        Ok(ScripturePosition::new(self.book, self.number, last_verse, Some(VersePartLabel::max())))
    }
}

impl Spanned for Verse {
    type Position = ScripturePosition;

    type Error = String;

    /// The verse itself, before its first part.
    fn start(&self) -> (r: Result<ScripturePosition, String>)
        ensures
            r matches Ok(p) && p@ == pack(
                self.spec_book().spec_id(),
                self.spec_chapter().spec_number(),
                self.spec_number(),
                0,
            ),
    {
        Ok(ScripturePosition::new(self.book, self.chapter.number(), self.number, None))
    }

    /// The last part of the verse.
    fn end(&self) -> (r: Result<ScripturePosition, String>)
        ensures
            r matches Ok(p) && p@ == pack(
                self.spec_book().spec_id(),
                self.spec_chapter().spec_number(),
                self.spec_number(),
                100,
            ),
    {
        Ok(
            ScripturePosition::new(
                self.book,
                self.chapter.number(),
                self.number,
                Some(VersePartLabel::max()),
            ),
        )
    }
}

} // verus!
