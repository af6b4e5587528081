//! The place of every book, chapter, verse and part of a verse in a
//! canon: one ordinal for where it begins, and one for where what comes
//! next begins.

use crate::bvc::{lemma_pack_order, pack, pack_fields, Book, Chapter, Verse, VersePart};
use crate::canon::{canon_valid, lemma_position, position_in, Canonical, InCanon};
use vstd::prelude::*;
use vstd::string::StringExecFns;

verus! {

/// A place in a canon: the position of the book in bits 24 to 31, the
/// chapter in bits 16 to 23, the verse in bits 8 to 15, and the letter
/// of the part in bits 0 to 7, each zero where the place is coarser.
/// Places compare as their ordinals do.
#[derive(Debug, Clone, Copy, PartialEq, Eq, Structural)]
pub struct ScripturePosition(u32);

impl View for ScripturePosition {
    type V = u32;

    closed spec fn view(&self) -> u32 {
        self.0
    }
}

impl ScripturePosition {
    /// The place with the ordinal `raw`.
    pub closed spec fn at(raw: u32) -> ScripturePosition {
        ScripturePosition(raw)
    }

    /// A place is its ordinal, and nothing more.
    pub proof fn lemma_at(self)
        ensures
            Self::at(self@) == self,
            forall|raw: u32| (#[trigger] Self::at(raw))@ == raw,
    {
    }

    /// The place of part `part` of verse `verse` of chapter `chapter` of
    /// the book at `book_pos`.
    pub(crate) fn new(book_pos: u8, chapter: u8, verse: u8, part: u8) -> (r: Self)
        ensures
            r == Self::at(pack(book_pos, chapter, verse, part)),
    {
        ScripturePosition(pack_fields(book_pos, chapter, verse, part))
    }

    /// The ordinal of the place.
    pub fn as_raw(&self) -> (r: u32)
        ensures
            r == self@,
    {
        self.0
    }
}

/// Where what comes next begins.
#[derive(Debug, Clone, Copy, PartialEq, Eq, Structural)]
pub enum ScriptureEnd {
    /// The place of what comes next: the next part, verse, chapter or book.
    NextPosition(ScripturePosition),
    /// Nothing comes next. The ordinal is greater than that of any
    /// place, and is the place of nothing.
    VirtualBoundary(u32),
}

impl ScriptureEnd {
    /// The ordinal of the end.
    pub open spec fn raw(self) -> u32 {
        match self {
            ScriptureEnd::NextPosition(pos) => pos@,
            ScriptureEnd::VirtualBoundary(raw) => raw,
        }
    }

    /// The ordinal of the end.
    pub fn as_raw(&self) -> (r: u32)
        ensures
            r == self.raw(),
    {
        match self {
            ScriptureEnd::NextPosition(pos) => pos.as_raw(),
            ScriptureEnd::VirtualBoundary(pos) => *pos,
        }
    }

    /// The place of what comes next, where something does.
    pub fn into_real_position(self) -> (r: Option<ScripturePosition>)
        ensures
            r == (match self {
                ScriptureEnd::NextPosition(pos) => Some(pos),
                ScriptureEnd::VirtualBoundary(_) => None,
            }),
    {
        match self {
            ScriptureEnd::NextPosition(pos) => Some(pos),
            ScriptureEnd::VirtualBoundary(_) => None,
        }
    }
}

/// Where something begins, and where what comes next begins.
#[derive(Debug, Clone, Copy, PartialEq, Eq, Structural)]
pub struct ScriptureSpan {
    pub start: ScripturePosition,
    pub end: ScriptureEnd,
}

/// The message for a book that a canon does not have.
pub open spec fn not_in_canon_message(book: Book) -> Seq<char> {
    "book "@ + book.display_name() + " is not in the canon"@
}

/// Where what comes behind the book at `position` begins: the next
/// book, or the boundary behind the last book.
pub open spec fn next_book_end(books: Seq<Book>, position: u8) -> ScriptureEnd {
    if position + 1 < books.len() {
        ScriptureEnd::NextPosition(ScripturePosition::at(pack((position + 1) as u8, 0, 0, 0)))
    } else {
        ScriptureEnd::VirtualBoundary(u32::MAX)
    }
}

/// Where `book` begins in the canon `books`, if the canon has it.
pub open spec fn book_start(books: Seq<Book>, book: Book) -> Option<ScripturePosition> {
    match position_in(books, book) {
        Some(p) => Some(ScripturePosition::at(pack(p, 0, 0, 0))),
        None => None,
    }
}

/// Where what comes behind `book` begins.
pub open spec fn book_end(books: Seq<Book>, book: Book) -> Option<ScriptureEnd> {
    match position_in(books, book) {
        Some(p) => Some(next_book_end(books, p)),
        None => None,
    }
}

/// Where what comes behind `chapter` begins, with the chapter's book at
/// `position`: the next chapter of the book, or what comes behind the book.
pub open spec fn chapter_end_at(books: Seq<Book>, position: u8, chapter: Chapter) -> ScriptureEnd {
    if chapter.spec_number() < chapter.spec_book().chapters() {
        ScriptureEnd::NextPosition(
            ScripturePosition::at(pack(position, (chapter.spec_number() + 1) as u8, 0, 0)),
        )
    } else {
        next_book_end(books, position)
    }
}

/// Where what comes behind `verse` begins, with the verse's book at
/// `position`: the next verse of the chapter, or what comes behind the
/// chapter.
pub open spec fn verse_end_at(books: Seq<Book>, position: u8, verse: Verse) -> ScriptureEnd {
    if verse.spec_number() < verse.spec_chapter().verses() {
        ScriptureEnd::NextPosition(
            ScripturePosition::at(
                pack(
                    position,
                    verse.spec_chapter().spec_number(),
                    (verse.spec_number() + 1) as u8,
                    0,
                ),
            ),
        )
    } else {
        chapter_end_at(books, position, verse.spec_chapter())
    }
}

/// Where what comes behind `part` begins, with the part's book at
/// `position`: the next part of the verse, or what comes behind the verse.
pub open spec fn part_end_at(books: Seq<Book>, position: u8, part: VersePart) -> ScriptureEnd {
    if part.spec_label() < 100 {
        ScriptureEnd::NextPosition(
            ScripturePosition::at(
                pack(
                    position,
                    part.spec_verse().spec_chapter().spec_number(),
                    part.spec_verse().spec_number(),
                    (part.spec_label() + 1) as u8,
                ),
            ),
        )
    } else {
        verse_end_at(books, position, part.spec_verse())
    }
}

/// Where `chapter` begins in the canon `books`, if the canon has its book.
pub open spec fn chapter_start(books: Seq<Book>, chapter: Chapter) -> Option<ScripturePosition> {
    match position_in(books, chapter.spec_book()) {
        Some(p) => Some(ScripturePosition::at(pack(p, chapter.spec_number(), 0, 0))),
        None => None,
    }
}

/// Where what comes behind `chapter` begins, if the canon has its book.
pub open spec fn chapter_end(books: Seq<Book>, chapter: Chapter) -> Option<ScriptureEnd> {
    match position_in(books, chapter.spec_book()) {
        Some(p) => Some(chapter_end_at(books, p, chapter)),
        None => None,
    }
}

/// Where `verse` begins in the canon `books`, if the canon has its book.
pub open spec fn verse_start(books: Seq<Book>, verse: Verse) -> Option<ScripturePosition> {
    match position_in(books, verse.spec_book()) {
        Some(p) => Some(
            ScripturePosition::at(
                pack(p, verse.spec_chapter().spec_number(), verse.spec_number(), 0),
            ),
        ),
        None => None,
    }
}

/// Where what comes behind `verse` begins, if the canon has its book.
pub open spec fn verse_end(books: Seq<Book>, verse: Verse) -> Option<ScriptureEnd> {
    match position_in(books, verse.spec_book()) {
        Some(p) => Some(verse_end_at(books, p, verse)),
        None => None,
    }
}

/// Where `part` begins in the canon `books`, if the canon has its book.
pub open spec fn part_start(books: Seq<Book>, part: VersePart) -> Option<ScripturePosition> {
    match position_in(books, part.spec_book()) {
        Some(p) => Some(
            ScripturePosition::at(
                pack(
                    p,
                    part.spec_verse().spec_chapter().spec_number(),
                    part.spec_verse().spec_number(),
                    part.spec_label(),
                ),
            ),
        ),
        None => None,
    }
}

/// Where what comes behind `part` begins, if the canon has its book.
pub open spec fn part_end(books: Seq<Book>, part: VersePart) -> Option<ScriptureEnd> {
    match position_in(books, part.spec_book()) {
        Some(p) => Some(part_end_at(books, p, part)),
        None => None,
    }
}

/// What has a place in a canon.
pub trait SpannedScripture {
    /// Where the value begins, if the canon has its book.
    spec fn start_spec(&self) -> Option<ScripturePosition>;

    /// Where what comes behind the value begins, if the canon has its book.
    spec fn end_spec(&self) -> Option<ScriptureEnd>;

    /// The message where the canon does not have the value's book.
    spec fn missing_message(&self) -> Seq<char>;

    /// A value begins somewhere exactly if what comes behind it does.
    proof fn lemma_both_or_neither(&self)
        ensures
            self.start_spec() is Some <==> self.end_spec() is Some,
    ;

    /// Where the value begins, or a message where the canon does not
    /// have its book.
    fn start_position(&self) -> (r: Result<ScripturePosition, String>)
        ensures
            r.ok() == self.start_spec(),
            r matches Err(m) ==> m@ == self.missing_message(),
    ;

    /// Where what comes behind the value begins, or a message where the
    /// canon does not have its book.
    fn end_position(&self) -> (r: Result<ScriptureEnd, String>)
        ensures
            r.ok() == self.end_spec(),
            r matches Err(m) ==> m@ == self.missing_message(),
    ;

    /// Where the value begins and where what comes behind it begins, or
    /// a message where the canon does not have its book.
    fn span(&self) -> (r: Result<ScriptureSpan, String>)
        ensures
            r is Ok <==> self.start_spec() is Some,
            r matches Ok(s) ==> Some(s.start) == self.start_spec() && Some(s.end)
                == self.end_spec(),
            r matches Err(m) ==> m@ == self.missing_message(),
    {
        proof {
            self.lemma_both_or_neither();
        }
        let start = self.start_position()?;
        let end = self.end_position()?;
        Ok(ScriptureSpan { start, end })
    }
}

/// The position of `book` in `canon`, or a message where the canon
/// does not have the book.
pub fn position_of<C: Canonical>(canon: &C, book: Book) -> (r: Result<u8, String>)
    ensures
        r.ok() == position_in(canon.books(), book),
        r matches Err(m) ==> m@ == not_in_canon_message(book),
{
    match canon.book_position(book) {
        Some(position) => Ok(position),
        None => {
            let mut m = String::from_str("book ");
            m.append(book.name());
            m.append(" is not in the canon");
            Err(m)
        },
    }
}

/// Where what comes behind the book at `position` of `canon` begins.
pub fn end_of_book<C: Canonical>(canon: &C, position: u8) -> (r: ScriptureEnd)
    ensures
        r == next_book_end(canon.books(), position),
{
    proof {
        canon.lemma_valid();
    }
    if position == u8::MAX {
        return ScriptureEnd::VirtualBoundary(u32::MAX);
    }
    let next = position + 1;
    match canon.book_at_position(next) {
        Some(_) => ScriptureEnd::NextPosition(ScripturePosition::new(next, 0, 0, 0)),
        None => ScriptureEnd::VirtualBoundary(u32::MAX),
    }
}

impl<'c, C: Canonical> InCanon<'c, Book, C> {
    /// The book that comes behind this one in the canon: `None` where
    /// the canon does not have this book, `Some(None)` where the book is
    /// the canon's last.
    pub fn next(&self) -> (r: Option<Option<Book>>)
        ensures
            r == (match position_in(self.canon.books(), self.inner) {
                Some(p) => Some(
                    if p + 1 < self.canon.books().len() {
                        Some(self.canon.books()[p + 1])
                    } else {
                        None
                    },
                ),
                None => None,
            }),
    {
        proof {
            self.canon.lemma_valid();
        }
        match self.canon.book_position(self.inner) {
            Some(position) => {
                if position == u8::MAX {
                    Some(None)
                } else {
                    Some(self.canon.book_at_position(position + 1))
                }
            },
            None => None,
        }
    }
}

impl<'c, C: Canonical> SpannedScripture for InCanon<'c, Book, C> {
    open spec fn start_spec(&self) -> Option<ScripturePosition> {
        book_start(self.canon.books(), self.inner)
    }

    open spec fn end_spec(&self) -> Option<ScriptureEnd> {
        book_end(self.canon.books(), self.inner)
    }

    open spec fn missing_message(&self) -> Seq<char> {
        not_in_canon_message(self.inner)
    }

    proof fn lemma_both_or_neither(&self) {
        assert(self.start_spec() is Some <==> position_in(self.canon.books(), self.inner)
            is Some);
        assert(self.end_spec() is Some <==> position_in(self.canon.books(), self.inner) is Some);
    }

    fn start_position(&self) -> (r: Result<ScripturePosition, String>) {
        let pos = position_of(self.canon, self.inner)?;
        Ok(ScripturePosition::new(pos, 0, 0, 0))
    }

    fn end_position(&self) -> (r: Result<ScriptureEnd, String>) {
        let cur_pos = position_of(self.canon, self.inner)?;
        Ok(end_of_book(self.canon, cur_pos))
    }
}

impl<'c, C: Canonical> SpannedScripture for InCanon<'c, Chapter, C> {
    open spec fn start_spec(&self) -> Option<ScripturePosition> {
        chapter_start(self.canon.books(), self.inner)
    }

    open spec fn end_spec(&self) -> Option<ScriptureEnd> {
        chapter_end(self.canon.books(), self.inner)
    }

    open spec fn missing_message(&self) -> Seq<char> {
        not_in_canon_message(self.inner.spec_book())
    }

    proof fn lemma_both_or_neither(&self) {
        assert(self.start_spec() is Some <==> position_in(
            self.canon.books(),
            self.inner.spec_book(),
        ) is Some);
        assert(self.end_spec() is Some <==> position_in(
            self.canon.books(),
            self.inner.spec_book(),
        ) is Some);
    }

    fn start_position(&self) -> (r: Result<ScripturePosition, String>) {
        let chapter = self.inner;
        let book_pos = position_of(self.canon, crate::bvc::HasBook::book(&chapter))?;
        Ok(ScripturePosition::new(book_pos, chapter.number().get(), 0, 0))
    }

    fn end_position(&self) -> (r: Result<ScriptureEnd, String>) {
        let chapter = self.inner;
        proof {
            use_type_invariant(&chapter);
        }
        let book = crate::bvc::HasBook::book(&chapter);
        let chapter_count = book.chapter_count();
        let book_pos = position_of(self.canon, book)?;
        if chapter.number().get() == chapter_count {
            InCanon::new(book, self.canon).end_position()
        } else {
            Ok(
                ScriptureEnd::NextPosition(
                    ScripturePosition::new(book_pos, chapter.number().get() + 1, 0, 0),
                ),
            )
        }
    }
}

impl<'c, C: Canonical> SpannedScripture for InCanon<'c, Verse, C> {
    open spec fn start_spec(&self) -> Option<ScripturePosition> {
        verse_start(self.canon.books(), self.inner)
    }

    open spec fn end_spec(&self) -> Option<ScriptureEnd> {
        verse_end(self.canon.books(), self.inner)
    }

    open spec fn missing_message(&self) -> Seq<char> {
        not_in_canon_message(self.inner.spec_book())
    }

    proof fn lemma_both_or_neither(&self) {
        assert(self.start_spec() is Some <==> position_in(
            self.canon.books(),
            self.inner.spec_book(),
        ) is Some);
        assert(self.end_spec() is Some <==> position_in(
            self.canon.books(),
            self.inner.spec_book(),
        ) is Some);
    }

    fn start_position(&self) -> (r: Result<ScripturePosition, String>) {
        let verse = self.inner;
        let book_pos = position_of(self.canon, crate::bvc::HasBook::book(&verse))?;
        Ok(
            ScripturePosition::new(
                book_pos,
                verse.chapter().number().get(),
                verse.number().get(),
                0,
            ),
        )
    }

    fn end_position(&self) -> (r: Result<ScriptureEnd, String>) {
        let verse = self.inner;
        proof {
            use_type_invariant(&verse);
        }
        let chapter = verse.chapter();
        let book = crate::bvc::HasBook::book(&verse);
        let max_verse_count = book.max_verses_in_chapter(chapter.number().get())?;
        let book_pos = position_of(self.canon, book)?;
        if verse.number().get() == max_verse_count {
            InCanon::new(chapter, self.canon).end_position()
        } else {
            Ok(
                ScriptureEnd::NextPosition(
                    ScripturePosition::new(
                        book_pos,
                        chapter.number().get(),
                        verse.number().get() + 1,
                        0,
                    ),
                ),
            )
        }
    }
}

impl<'c, C: Canonical> SpannedScripture for InCanon<'c, VersePart, C> {
    open spec fn start_spec(&self) -> Option<ScripturePosition> {
        part_start(self.canon.books(), self.inner)
    }

    open spec fn end_spec(&self) -> Option<ScriptureEnd> {
        part_end(self.canon.books(), self.inner)
    }

    open spec fn missing_message(&self) -> Seq<char> {
        not_in_canon_message(self.inner.spec_book())
    }

    proof fn lemma_both_or_neither(&self) {
        assert(self.start_spec() is Some <==> position_in(
            self.canon.books(),
            self.inner.spec_book(),
        ) is Some);
        assert(self.end_spec() is Some <==> position_in(
            self.canon.books(),
            self.inner.spec_book(),
        ) is Some);
    }

    fn start_position(&self) -> (r: Result<ScripturePosition, String>) {
        let part = self.inner;
        proof {
            use_type_invariant(&part);
        }
        let verse = part.verse();
        let book_pos = position_of(self.canon, crate::bvc::HasBook::book(&part))?;
        Ok(
            ScripturePosition::new(
                book_pos,
                verse.chapter().number().get(),
                verse.number().get(),
                part.part().get(),
            ),
        )
    }

    fn end_position(&self) -> (r: Result<ScriptureEnd, String>) {
        let part = self.inner;
        proof {
            use_type_invariant(&part);
        }
        let verse = part.verse();
        let book_pos = position_of(self.canon, crate::bvc::HasBook::book(&part))?;
        let label = part.part().get();
        if label == crate::bvc::VersePartLabel::max().get() {
            InCanon::new(verse, self.canon).end_position()
        } else {
            Ok(
                ScriptureEnd::NextPosition(
                    ScripturePosition::new(
                        book_pos,
                        verse.chapter().number().get(),
                        verse.number().get(),
                        label + 1,
                    ),
                ),
            )
        }
    }
}

/// The message for a builder that was given nothing.
pub open spec fn nothing_given_message() -> Seq<char> {
    "book is required"@
}

/// Finds where what comes behind a book, a chapter, a verse or a part
/// of a verse begins: behind the finest of those that it was given.
pub struct ScriptureEndBuilder<'c, C: Canonical> {
    pub canon: &'c C,
    pub book: Option<Book>,
    pub chapter: Option<Chapter>,
    pub verse: Option<Verse>,
    pub verse_part: Option<VersePart>,
}

impl<'c, C: Canonical> ScriptureEndBuilder<'c, C> {
    /// A builder for `canon` that has been given nothing yet.
    pub fn new(canon: &'c C) -> (r: Self)
        ensures
            r.canon == canon,
            r.book is None,
            r.chapter is None,
            r.verse is None,
            r.verse_part is None,
    {
        Self { canon, book: None, chapter: None, verse: None, verse_part: None }
    }

    /// Where what comes behind the finest of the given values begins, if
    /// anything was given and the canon has its book.
    pub open spec fn end(&self) -> Option<ScriptureEnd> {
        match self.verse_part {
            Some(part) => part_end(self.canon.books(), part),
            None => match self.verse {
                Some(verse) => verse_end(self.canon.books(), verse),
                None => match self.chapter {
                    Some(chapter) => chapter_end(self.canon.books(), chapter),
                    None => match self.book {
                        Some(book) => book_end(self.canon.books(), book),
                        None => None,
                    },
                },
            },
        }
    }

    /// The message where the builder finds no end.
    pub open spec fn missing_message(&self) -> Seq<char> {
        match self.verse_part {
            Some(part) => not_in_canon_message(part.spec_book()),
            None => match self.verse {
                Some(verse) => not_in_canon_message(verse.spec_book()),
                None => match self.chapter {
                    Some(chapter) => not_in_canon_message(chapter.spec_book()),
                    None => match self.book {
                        Some(book) => not_in_canon_message(book),
                        None => nothing_given_message(),
                    },
                },
            },
        }
    }

    /// Finds where what comes behind the finest of the given values
    /// begins, or gives a message where nothing was given or the canon does
    /// not have the book.
    pub fn build(self) -> (r: Result<ScriptureEnd, String>)
        ensures
            r.ok() == self.end(),
            r matches Err(m) ==> m@ == self.missing_message(),
    {
        if let Some(part) = self.verse_part {
            InCanon::new(part, self.canon).end_position()
        } else if let Some(verse) = self.verse {
            InCanon::new(verse, self.canon).end_position()
        } else if let Some(chapter) = self.chapter {
            InCanon::new(chapter, self.canon).end_position()
        } else if let Some(book) = self.book {
            InCanon::new(book, self.canon).end_position()
        } else {
            Err(String::from_str("book is required"))
        }
    }
}

/// Of two books of a canon, the first ends no later than the second
/// begins, and ends exactly where the second begins if the second comes
/// next in the canon.
pub proof fn law_books_in_order(books: Seq<Book>, first: Book, second: Book)
    requires
        canon_valid(books),
        position_in(books, first) matches Some(p1) && position_in(books, second) matches Some(p2)
            && p1 < p2,
    ensures
        book_end(books, first) matches Some(end) && book_start(books, second) matches Some(start)
            && end.raw() <= start@ && (position_in(books, first)->0 + 1 == position_in(
            books,
            second,
        )->0 ==> end == ScriptureEnd::NextPosition(start)),
{
    let p1 = position_in(books, first)->0;
    let p2 = position_in(books, second)->0;
    lemma_position(books, first);
    lemma_position(books, second);
    lemma_pack_order((p1 + 1) as u8, 0, 0, 0, p2, 0, 0, 0);
}

/// A chapter that is not the last of its book ends where the next
/// chapter of the book begins.
pub proof fn law_chapter_ends_at_next_chapter(books: Seq<Book>, chapter: Chapter, next: Chapter)
    requires
        chapter.wf(),
        next.wf(),
        next.spec_book() == chapter.spec_book(),
        next.spec_number() == chapter.spec_number() + 1,
    ensures
        match chapter_start(books, next) {
            Some(start) => chapter_end(books, chapter) == Some(ScriptureEnd::NextPosition(start)),
            None => chapter_end(books, chapter) is None,
        },
{
}

/// A verse that is not the last of its chapter ends where the next
/// verse of the chapter begins.
pub proof fn law_verse_ends_at_next_verse(books: Seq<Book>, verse: Verse, next: Verse)
    requires
        verse.wf(),
        next.wf(),
        next.spec_book() == verse.spec_book(),
        next.spec_chapter() == verse.spec_chapter(),
        next.spec_number() == verse.spec_number() + 1,
    ensures
        match verse_start(books, next) {
            Some(start) => verse_end(books, verse) == Some(ScriptureEnd::NextPosition(start)),
            None => verse_end(books, verse) is None,
        },
{
}

/// A part of a verse that is not the last ends where the next part of
/// the verse begins.
pub proof fn law_part_ends_at_next_part(books: Seq<Book>, part: VersePart, next: VersePart)
    requires
        part.wf(),
        next.wf(),
        next.spec_book() == part.spec_book(),
        next.spec_verse() == part.spec_verse(),
        next.spec_label() == part.spec_label() + 1,
    ensures
        match part_start(books, next) {
            Some(start) => part_end(books, part) == Some(ScriptureEnd::NextPosition(start)),
            None => part_end(books, part) is None,
        },
{
}

/// The last chapter of a book ends where the book ends.
pub proof fn law_last_chapter_ends_with_book(books: Seq<Book>, chapter: Chapter)
    requires
        chapter.wf(),
        chapter.spec_number() == chapter.spec_book().chapters(),
    ensures
        chapter_end(books, chapter) == book_end(books, chapter.spec_book()),
{
}

/// The last verse of a chapter ends where the chapter ends.
pub proof fn law_last_verse_ends_with_chapter(books: Seq<Book>, verse: Verse)
    requires
        verse.wf(),
        verse.spec_number() == verse.spec_chapter().verses(),
    ensures
        verse_end(books, verse) == chapter_end(books, verse.spec_chapter()),
{
}

/// The last part of a verse ends where the verse ends.
pub proof fn law_last_part_ends_with_verse(books: Seq<Book>, part: VersePart)
    requires
        part.wf(),
        part.spec_label() == 100,
    ensures
        part_end(books, part) == verse_end(books, part.spec_verse()),
{
}

/// A book of a canon begins before it ends.
pub proof fn law_book_span_is_not_empty(books: Seq<Book>, book: Book)
    requires
        canon_valid(books),
        position_in(books, book) is Some,
    ensures
        book_start(books, book)->0@ < book_end(books, book)->0.raw(),
{
    let p = position_in(books, book)->0;
    lemma_position(books, book);
    lemma_pack_order(p, 0, 0, 0, (p + 1) as u8, 0, 0, 0);
    lemma_pack_below_boundary(p, 0, 0, 0);
}

/// A chapter of a book of a canon begins before it ends.
pub proof fn law_chapter_span_is_not_empty(books: Seq<Book>, chapter: Chapter)
    requires
        canon_valid(books),
        chapter.wf(),
        position_in(books, chapter.spec_book()) is Some,
    ensures
        chapter_start(books, chapter)->0@ < chapter_end(books, chapter)->0.raw(),
{
    let p = position_in(books, chapter.spec_book())->0;
    let c = chapter.spec_number();
    lemma_position(books, chapter.spec_book());
    chapter.spec_book().lemma_table_len();
    lemma_pack_order(p, c, 0, 0, (p + 1) as u8, 0, 0, 0);
    lemma_pack_order(p, c, 0, 0, p, (c + 1) as u8, 0, 0);
    lemma_pack_below_boundary(p, c, 0, 0);
}

/// A verse of a book of a canon begins before it ends.
pub proof fn law_verse_span_is_not_empty(books: Seq<Book>, verse: Verse)
    requires
        canon_valid(books),
        verse.wf(),
        position_in(books, verse.spec_book()) is Some,
    ensures
        verse_start(books, verse)->0@ < verse_end(books, verse)->0.raw(),
{
    let p = position_in(books, verse.spec_book())->0;
    let c = verse.spec_chapter().spec_number();
    let v = verse.spec_number();
    lemma_position(books, verse.spec_book());
    verse.spec_book().lemma_table_len();
    lemma_pack_order(p, c, v, 0, (p + 1) as u8, 0, 0, 0);
    lemma_pack_order(p, c, v, 0, p, (c + 1) as u8, 0, 0);
    lemma_pack_order(p, c, v, 0, p, c, (v + 1) as u8, 0);
    lemma_pack_below_boundary(p, c, v, 0);
}

/// A part of a verse of a book of a canon begins before it ends.
pub proof fn law_part_span_is_not_empty(books: Seq<Book>, part: VersePart)
    requires
        canon_valid(books),
        part.wf(),
        position_in(books, part.spec_book()) is Some,
    ensures
        part_start(books, part)->0@ < part_end(books, part)->0.raw(),
{
    let p = position_in(books, part.spec_book())->0;
    let c = part.spec_verse().spec_chapter().spec_number();
    let v = part.spec_verse().spec_number();
    let l = part.spec_label();
    lemma_position(books, part.spec_book());
    part.spec_book().lemma_table_len();
    lemma_pack_order(p, c, v, l, (p + 1) as u8, 0, 0, 0);
    lemma_pack_order(p, c, v, l, p, (c + 1) as u8, 0, 0);
    lemma_pack_order(p, c, v, l, p, c, (v + 1) as u8, 0);
    lemma_pack_order(p, c, v, l, p, c, v, (l + 1) as u8);
    lemma_pack_below_boundary(p, c, v, l);
}

/// A part lies within its verse, a verse within its chapter, and a
/// chapter within its book: each begins no earlier than what it belongs
/// to, and ends no later.
pub proof fn law_spans_are_nested(books: Seq<Book>, part: VersePart)
    requires
        canon_valid(books),
        part.wf(),
        position_in(books, part.spec_book()) is Some,
    ensures
        book_start(books, part.spec_book())->0@ <= chapter_start(
            books,
            part.spec_verse().spec_chapter(),
        )->0@ <= verse_start(books, part.spec_verse())->0@ <= part_start(books, part)->0@,
        part_end(books, part)->0.raw() <= verse_end(books, part.spec_verse())->0.raw()
            <= chapter_end(books, part.spec_verse().spec_chapter())->0.raw() <= book_end(
            books,
            part.spec_book(),
        )->0.raw(),
{
    let p = position_in(books, part.spec_book())->0;
    let c = part.spec_verse().spec_chapter().spec_number();
    let v = part.spec_verse().spec_number();
    let l = part.spec_label();
    lemma_position(books, part.spec_book());
    part.spec_book().lemma_table_len();
    lemma_pack_order(p, 0, 0, 0, p, c, 0, 0);
    lemma_pack_order(p, c, 0, 0, p, c, v, 0);
    lemma_pack_order(p, c, v, 0, p, c, v, l);
    lemma_pack_order(p, c, v, (l + 1) as u8, p, c, (v + 1) as u8, 0);
    lemma_pack_order(p, c, v, (l + 1) as u8, p, (c + 1) as u8, 0, 0);
    lemma_pack_order(p, c, v, (l + 1) as u8, (p + 1) as u8, 0, 0, 0);
    lemma_pack_order(p, c, (v + 1) as u8, 0, p, (c + 1) as u8, 0, 0);
    lemma_pack_order(p, c, (v + 1) as u8, 0, (p + 1) as u8, 0, 0, 0);
    lemma_pack_order(p, (c + 1) as u8, 0, 0, (p + 1) as u8, 0, 0, 0);
    lemma_pack_below_boundary(p, c, v, l);
    lemma_pack_below_boundary(p, c, (v + 1) as u8, 0);
    lemma_pack_below_boundary(p, (c + 1) as u8, 0, 0);
    lemma_pack_below_boundary((p + 1) as u8, 0, 0, 0);
}

/// No place of a chapter below 255 has the ordinal of the boundary.
proof fn lemma_pack_below_boundary(book: u8, chapter: u8, verse: u8, part: u8)
    requires
        chapter < 255,
    ensures
        pack(book, chapter, verse, part) < u32::MAX,
{
}

} // verus!
