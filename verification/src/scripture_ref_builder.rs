//! References to scripture as they are printed: a verse, a passage from
//! one verse to another, a selection of verses and passages, and the
//! builders that put each together.

use crate::bvc::{
    chapter_text, verse_text, Book, Chapter, ChapterNumber, HasBook, Verse, VerseNumber,
    VersePartLabel,
};
use crate::text::decimal;
use vstd::prelude::*;
use vstd::std_specs::convert::FromSpecImpl;
use vstd::string::StringExecFns;

verus! {

/// A verse, or a part of it.
#[derive(Debug, Clone, Copy, Eq, PartialEq)]
pub struct ScriptureVerseRef {
    pub verse: Verse,
    pub verse_part: Option<VersePartLabel>,
}

/// A passage: from one verse to another.
#[derive(Debug, Clone, Copy)]
pub struct ScripturePassageRef {
    pub start: ScriptureVerseRef,
    pub end: ScriptureVerseRef,
}

/// One piece of a selection: a verse or a passage.
#[derive(Debug, Clone, Copy)]
pub enum SelectionPart {
    Verse(ScriptureVerseRef),
    Passage(ScripturePassageRef),
}

/// A selection: verses and passages, in the order in which they were added.
#[derive(Debug)]
pub struct ScriptureSelectionRef(pub Vec<SelectionPart>);

/// A reference to scripture of any of the three kinds.
#[derive(Debug)]
pub enum ScriptureRef {
    Verse(ScriptureVerseRef),
    Passage(ScripturePassageRef),
    Selection(ScriptureSelectionRef),
}

/// Puts a reference to a verse together.
#[derive(Debug)]
pub struct ScriptureVerseRefBuilder {
    pub book: Option<Book>,
    pub chapter: Option<ChapterNumber>,
    pub verse: Option<VerseNumber>,
    pub verse_part: Option<VersePartLabel>,
}

/// Puts a reference to a passage together.
#[derive(Debug)]
pub struct ScripturePassageRefBuilder {
    pub start: Option<ScriptureVerseRef>,
    pub end: Option<ScriptureVerseRef>,
}

/// Puts a selection together.
#[derive(Debug)]
pub struct ScriptureSelectionRefBuilder {
    pub selection: Vec<SelectionPart>,
}

/// How a reference to a verse is printed: the verse, then the code of
/// the capital letter of its part, if it has one.
pub open spec fn verse_ref_text(r: ScriptureVerseRef) -> Seq<char> {
    let verse = verse_text(
        r.verse.spec_book(),
        r.verse.spec_chapter().spec_number(),
        r.verse.spec_number(),
    );
    match r.verse_part {
        Some(part) => verse + decimal((part@ - 32) as nat),
        None => verse,
    }
}

/// How a passage is printed. From a verse to the same verse, it is that
/// verse. Within one chapter, it is the chapter. Within one book, it is
/// the book, the first chapter, and the two verses with `-` between.
/// Otherwise, it is the two verses with `-` between.
pub open spec fn passage_text(p: ScripturePassageRef) -> Seq<char> {
    let start = p.start.verse;
    let end = p.end.verse;
    if start == end {
        verse_ref_text(p.start)
    } else if start.spec_chapter() == end.spec_chapter() {
        chapter_text(start.spec_book(), start.spec_chapter().spec_number())
    } else if start.spec_book() == end.spec_book() {
        start.spec_book().display_name() + " "@ + chapter_text(
            start.spec_chapter().spec_book(),
            start.spec_chapter().spec_number(),
        ) + ":"@ + decimal(start.spec_number() as nat) + "-"@ + decimal(end.spec_number() as nat)
    } else {
        verse_ref_text(p.start) + "-"@ + verse_ref_text(p.end)
    }
}

/// How a piece of a selection is printed.
pub open spec fn part_text(part: SelectionPart) -> Seq<char> {
    match part {
        SelectionPart::Verse(v) => verse_ref_text(v),
        SelectionPart::Passage(p) => passage_text(p),
    }
}

/// Whether `a` and `b` are the same verse, and not passages.
pub open spec fn same_verse(a: SelectionPart, b: SelectionPart) -> bool {
    a matches SelectionPart::Verse(x) && b matches SelectionPart::Verse(y) && x == y
}

/// `parts` without the verses that repeat the verse just before them.
pub open spec fn without_repeats(parts: Seq<SelectionPart>) -> Seq<SelectionPart>
    decreases parts.len(),
{
    if parts.len() <= 1 {
        parts
    } else {
        let kept = without_repeats(parts.drop_last());
        if kept.len() > 0 && same_verse(parts.last(), kept.last()) {
            kept
        } else {
            kept.push(parts.last())
        }
    }
}

/// The texts of `parts` with `; ` between them.
pub open spec fn joined_text(parts: Seq<SelectionPart>) -> Seq<char>
    decreases parts.len(),
{
    if parts.len() == 0 {
        Seq::empty()
    } else if parts.len() == 1 {
        part_text(parts[0])
    } else {
        joined_text(parts.drop_last()) + "; "@ + part_text(parts.last())
    }
}

/// How a selection is printed: its pieces with `; ` between them, a
/// verse that repeats the verse just before it left out.
pub open spec fn selection_text(parts: Seq<SelectionPart>) -> Seq<char> {
    joined_text(without_repeats(parts))
}

/// How a reference is printed.
pub open spec fn ref_text(r: ScriptureRef) -> Seq<char> {
    match r {
        ScriptureRef::Verse(v) => verse_ref_text(v),
        ScriptureRef::Passage(p) => passage_text(p),
        ScriptureRef::Selection(s) => selection_text(s.0@),
    }
}

/// Tests whether two optional labels are the same.
fn same_label(a: Option<VersePartLabel>, b: Option<VersePartLabel>) -> (r: bool)
    ensures
        r == (a == b),
{
    match (a, b) {
        (Some(x), Some(y)) => x == y,
        (None, None) => true,
        _ => false,
    }
}

impl ScriptureVerseRef {
    /// The reference to verse `verse` of chapter `chapter` of `book`, or
    /// to its part `verse_part`, or a message where the book has no such
    /// chapter or the chapter no such verse.
    pub fn new(
        book: Book,
        chapter: ChapterNumber,
        verse: VerseNumber,
        verse_part: Option<VersePartLabel>,
    ) -> (r: Result<Self, String>)
        ensures
            r is Ok <==> chapter@ <= book.chapters() && verse@ <= book.verses_in(chapter@ as int),
            r matches Ok(v) ==> {
                &&& v.verse.spec_book() == book
                &&& v.verse.spec_chapter().spec_number() == chapter@
                &&& v.verse.spec_number() == verse@
                &&& v.verse.wf()
                &&& v.verse_part == verse_part
            },
            r matches Err(m) ==> m@ == (if chapter@ > book.chapters() {
                crate::bvc::chapter_count_message(book, chapter@)
            } else {
                crate::bvc::verse_count_message(book, chapter@, verse@)
            }),
    {
        Ok(Self { verse: Verse::new(book, chapter, verse)?, verse_part })
    }

    /// A builder that has been given nothing yet.
    pub fn builder() -> (r: ScriptureVerseRefBuilder)
        ensures
            r.book is None,
            r.chapter is None,
            r.verse is None,
            r.verse_part is None,
    {
        ScriptureVerseRefBuilder::new()
    }

    /// Tests whether `self` and `other` are the same reference.
    pub fn same(&self, other: &ScriptureVerseRef) -> (r: bool)
        ensures
            r == (*self == *other),
    {
        self.verse == other.verse && same_label(self.verse_part, other.verse_part)
    }

    /// The reference as it is printed.
    pub fn to_string(&self) -> (r: String)
        ensures
            r@ == verse_ref_text(*self),
    {
        let mut r = self.verse.to_string();
        if let Some(part) = &self.verse_part {
            r.append(part.to_string().as_str());
        }
        r
    }
}

impl ScriptureVerseRefBuilder {
    /// A builder that has been given nothing yet.
    pub fn new() -> (r: Self)
        ensures
            r.book is None,
            r.chapter is None,
            r.verse is None,
            r.verse_part is None,
    {
        Self { book: None, chapter: None, verse: None, verse_part: None }
    }

    /// The builder with `book` for its book.
    pub fn book(self, book: Book) -> (r: Self)
        ensures
            r.book == Some(book),
            r.chapter == self.chapter,
            r.verse == self.verse,
            r.verse_part == self.verse_part,
    {
        let mut builder = self;
        builder.book = Some(book);
        builder
    }

    /// The builder with the book that `book` holds, or the error that it holds.
    pub fn try_book<E>(self, book: Result<Book, E>) -> (r: Result<Self, E>)
        ensures
            match book {
                Ok(b) => r matches Ok(builder) && builder.book == Some(b) && builder.chapter
                    == self.chapter && builder.verse == self.verse && builder.verse_part
                    == self.verse_part,
                Err(e) => r matches Err(x) && x == e,
            },
    {
        Ok(self.book(book?))
    }

    /// The builder with `chapter` for its chapter.
    pub fn chapter(self, chapter: ChapterNumber) -> (r: Self)
        ensures
            r.book == self.book,
            r.chapter == Some(chapter),
            r.verse == self.verse,
            r.verse_part == self.verse_part,
    {
        let mut builder = self;
        builder.chapter = Some(chapter);
        builder
    }

    /// The builder with the chapter that `chapter` holds, or the error
    /// that it holds.
    pub fn try_chapter<E>(self, chapter: Result<ChapterNumber, E>) -> (r: Result<Self, E>)
        ensures
            match chapter {
                Ok(c) => r matches Ok(builder) && builder.book == self.book && builder.chapter
                    == Some(c) && builder.verse == self.verse && builder.verse_part
                    == self.verse_part,
                Err(e) => r matches Err(x) && x == e,
            },
    {
        Ok(self.chapter(chapter?))
    }

    /// The builder with `verse` for its verse.
    pub fn verse(self, verse: VerseNumber) -> (r: Self)
        ensures
            r.book == self.book,
            r.chapter == self.chapter,
            r.verse == Some(verse),
            r.verse_part == self.verse_part,
    {
        let mut builder = self;
        builder.verse = Some(verse);
        builder
    }

    /// The builder with the verse that `verse` holds, or the error that
    /// it holds.
    pub fn try_verse<E>(self, verse: Result<VerseNumber, E>) -> (r: Result<Self, E>)
        ensures
            match verse {
                Ok(v) => r matches Ok(builder) && builder.book == self.book && builder.chapter
                    == self.chapter && builder.verse == Some(v) && builder.verse_part
                    == self.verse_part,
                Err(e) => r matches Err(x) && x == e,
            },
    {
        Ok(self.verse(verse?))
    }

    /// The reference that the builder was given the pieces of, or a
    /// message: for the first of book, chapter and verse that is missing,
    /// or else where the book has no such chapter or the chapter no such
    /// verse.
    pub fn build(&self) -> (r: Result<ScriptureVerseRef, String>)
        ensures
            r is Ok <==> (self.book matches Some(b) && self.chapter matches Some(c)
                && self.verse matches Some(v) && c@ <= b.chapters() && v@ <= b.verses_in(
                c@ as int,
            )),
            r matches Ok(built) ==> {
                &&& Some(built.verse.spec_book()) == self.book
                &&& built.verse.spec_chapter().spec_number() == self.chapter->0@
                &&& built.verse.spec_number() == self.verse->0@
                &&& built.verse.wf()
                &&& built.verse_part == self.verse_part
            },
            r matches Err(m) ==> m@ == (if self.book is None {
                "book is required"@
            } else if self.chapter is None {
                "chapter is required"@
            } else if self.verse is None {
                "verse is required"@
            } else if self.chapter->0@ > self.book->0.chapters() {
                crate::bvc::chapter_count_message(self.book->0, self.chapter->0@)
            } else {
                crate::bvc::verse_count_message(self.book->0, self.chapter->0@, self.verse->0@)
            }),
    {
        let book = match self.book {
            Some(book) => book,
            None => {
                return Err(String::from_str("book is required"));
            },
        };
        let chapter = match self.chapter {
            Some(chapter) => chapter,
            None => {
                return Err(String::from_str("chapter is required"));
            },
        };
        let verse = match self.verse {
            Some(verse) => verse,
            None => {
                return Err(String::from_str("verse is required"));
            },
        };
        ScriptureVerseRef::new(book, chapter, verse, self.verse_part)
    }
}

impl ScripturePassageRef {
    /// The passage from `start` to `end`.
    pub fn new(start: ScriptureVerseRef, end: ScriptureVerseRef) -> (r: Result<Self, String>)
        ensures
            r matches Ok(p) && p.start == start && p.end == end,
    {
        Ok(Self { start, end })
    }

    /// A builder that has been given nothing yet.
    pub fn builder() -> (r: ScripturePassageRefBuilder)
        ensures
            r.start is None,
            r.end is None,
    {
        ScripturePassageRefBuilder::new()
    }

    /// The passage as it is printed.
    pub fn to_string(&self) -> (r: String)
        ensures
            r@ == passage_text(*self),
    {
        let start = self.start.verse;
        let end = self.end.verse;
        if start == end {
            self.start.to_string()
        } else if start.chapter() == end.chapter() {
            let mut r = start.book().to_string();
            r.append(" ");
            r.append(start.chapter().number().to_string().as_str());
            r
        } else if start.book() == end.book() {
            let mut r = start.book().to_string();
            r.append(" ");
            r.append(start.chapter().to_string().as_str());
            r.append(":");
            r.append(start.number().to_string().as_str());
            r.append("-");
            r.append(end.number().to_string().as_str());
            r
        } else {
            let mut r = self.start.to_string();
            r.append("-");
            r.append(self.end.to_string().as_str());
            r
        }
    }
}

impl ScripturePassageRefBuilder {
    /// A builder that has been given nothing yet.
    pub fn new() -> (r: Self)
        ensures
            r.start is None,
            r.end is None,
    {
        Self { start: None, end: None }
    }

    /// The builder with `verse` for the first verse of the passage.
    pub fn start_at(self, verse: ScriptureVerseRef) -> (r: Self)
        ensures
            r.start == Some(verse),
            r.end == self.end,
    {
        let mut builder = self;
        builder.start = Some(verse);
        builder
    }

    /// The builder with `verse` for the last verse of the passage.
    pub fn end_at(self, verse: ScriptureVerseRef) -> (r: Self)
        ensures
            r.start == self.start,
            r.end == Some(verse),
    {
        let mut builder = self;
        builder.end = Some(verse);
        builder
    }

    /// The passage that the builder was given the two ends of, or a
    /// message for the first end that is missing.
    pub fn build(&self) -> (r: Result<ScripturePassageRef, String>)
        ensures
            r is Ok <==> self.start is Some && self.end is Some,
            r matches Ok(p) ==> Some(p.start) == self.start && Some(p.end) == self.end,
            r matches Err(m) ==> m@ == (if self.start is None {
                "starting verse ref is required"@
            } else {
                "ending verse ref is required"@
            }),
    {
        let start = match self.start {
            Some(start) => start,
            None => {
                return Err(String::from_str("starting verse ref is required"));
            },
        };
        let end = match self.end {
            Some(end) => end,
            None => {
                return Err(String::from_str("ending verse ref is required"));
            },
        };
        ScripturePassageRef::new(start, end)
    }
}

impl SelectionPart {
    /// The piece as it is printed.
    pub fn to_string(&self) -> (r: String)
        ensures
            r@ == part_text(*self),
    {
        match self {
            SelectionPart::Verse(v) => v.to_string(),
            SelectionPart::Passage(p) => p.to_string(),
        }
    }

    /// Tests whether `self` and `other` are the same verse, and not passages.
    pub fn same_verse_as(&self, other: &SelectionPart) -> (r: bool)
        ensures
            r == same_verse(*self, *other),
    {
        match (self, other) {
            (SelectionPart::Verse(a), SelectionPart::Verse(b)) => a.same(b),
            _ => false,
        }
    }
}

impl ScriptureSelectionRef {
    /// The selection of `selection`, in that order.
    pub fn new(selection: Vec<SelectionPart>) -> (r: Result<Self, String>)
        ensures
            r matches Ok(s) && s.0 == selection,
    {
        Ok(Self(selection))
    }

    /// The pieces of the selection, in order.
    pub fn parts(self) -> (r: Vec<SelectionPart>)
        ensures
            r == self.0,
    {
        self.0
    }

    /// A builder that has been given nothing yet.
    pub fn builder() -> (r: ScriptureSelectionRefBuilder)
        ensures
            r.selection@.len() == 0,
    {
        ScriptureSelectionRefBuilder::new()
    }

    /// The selection as it is printed.
    pub fn to_string(&self) -> (r: String)
        ensures
            r@ == selection_text(self.0@),
    {
        let parts = &self.0;
        let mut out = String::new();
        let mut last: usize = 0;
        let mut i: usize = 0;
        while i < parts.len()
            invariant
                i <= parts@.len(),
                out@ == joined_text(without_repeats(parts@.take(i as int))),
                i > 0 ==> last < i && without_repeats(parts@.take(i as int)).len() > 0
                    && without_repeats(parts@.take(i as int)).last() == parts@[last as int],
                i == 0 ==> without_repeats(parts@.take(i as int)).len() == 0,
            decreases parts.len() - i,
        {
            let ghost before = parts@.take(i as int);
            let ghost after = parts@.take(i as int + 1);
            proof {
                assert(after.drop_last() =~= before);
                assert(after.last() == parts@[i as int]);
                if i == 0 {
                    assert(after =~= seq![parts@[0]]);
                }
            }
            if i > 0 && parts[i].same_verse_as(&parts[last]) {
                assert(without_repeats(after) == without_repeats(before));
            } else {
                proof {
                    let kept = without_repeats(before);
                    if i > 0 {
                        assert(without_repeats(after) == kept.push(parts@[i as int]));
                        assert(kept.push(parts@[i as int]).drop_last() =~= kept);
                    }
                }
                if i > 0 {
                    out.append("; ");
                }
                out.append(parts[i].to_string().as_str());
                last = i;
            }
            i = i + 1;
        }
        proof {
            assert(parts@.take(i as int) =~= parts@);
        }
        out
    }
}

impl ScriptureSelectionRefBuilder {
    /// A builder that has been given nothing yet.
    pub fn new() -> (r: Self)
        ensures
            r.selection@.len() == 0,
    {
        Self { selection: Vec::new() }
    }

    /// The builder with `verse` added behind what it was given before.
    pub fn add_verse(self, verse: ScriptureVerseRef) -> (r: Self)
        ensures
            r.selection@ == self.selection@.push(SelectionPart::Verse(verse)),
    {
        let mut builder = self;
        builder.selection.push(SelectionPart::Verse(verse));
        builder
    }

    /// The builder with `passage` added behind what it was given before.
    pub fn add_passage(self, passage: ScripturePassageRef) -> (r: Self)
        ensures
            r.selection@ == self.selection@.push(SelectionPart::Passage(passage)),
    {
        let mut builder = self;
        builder.selection.push(SelectionPart::Passage(passage));
        builder
    }

    /// The selection of what the builder was given, in that order.
    pub fn build(self) -> (r: Result<ScriptureSelectionRef, String>)
        ensures
            r matches Ok(s) && s.0 == self.selection,
    {
        ScriptureSelectionRef::new(self.selection)
    }
}

impl ScriptureRef {
    /// The reference as it is printed.
    pub fn to_string(&self) -> (r: String)
        ensures
            r@ == ref_text(*self),
    {
        match self {
            ScriptureRef::Verse(v) => v.to_string(),
            ScriptureRef::Passage(p) => p.to_string(),
            ScriptureRef::Selection(s) => s.to_string(),
        }
    }
}

impl From<ScriptureVerseRef> for ScriptureRef {
    fn from(value: ScriptureVerseRef) -> (r: Self) {
        Self::Verse(value)
    }
}

impl FromSpecImpl<ScriptureVerseRef> for ScriptureRef {
    open spec fn obeys_from_spec() -> bool {
        true
    }

    open spec fn from_spec(value: ScriptureVerseRef) -> Self {
        ScriptureRef::Verse(value)
    }
}

impl From<ScripturePassageRef> for ScriptureRef {
    fn from(value: ScripturePassageRef) -> (r: Self) {
        Self::Passage(value)
    }
}

impl FromSpecImpl<ScripturePassageRef> for ScriptureRef {
    open spec fn obeys_from_spec() -> bool {
        true
    }

    open spec fn from_spec(value: ScripturePassageRef) -> Self {
        ScriptureRef::Passage(value)
    }
}

impl From<ScriptureSelectionRef> for ScriptureRef {
    fn from(value: ScriptureSelectionRef) -> (r: Self) {
        Self::Selection(value)
    }
}

impl FromSpecImpl<ScriptureSelectionRef> for ScriptureRef {
    open spec fn obeys_from_spec() -> bool {
        true
    }

    open spec fn from_spec(value: ScriptureSelectionRef) -> Self {
        ScriptureRef::Selection(value)
    }
}

impl From<Chapter> for ScripturePassageRef {
    /// The passage from the first verse of `chapter` to its last.
    fn from(chapter: Chapter) -> (r: Self)
        ensures
            r.start.verse.spec_book() == chapter.spec_book(),
            r.start.verse.spec_chapter().spec_number() == chapter.spec_number(),
            r.start.verse.spec_number() == 1,
            r.start.verse_part is None,
            r.end.verse.spec_book() == chapter.spec_book(),
            r.end.verse.spec_chapter().spec_number() == chapter.spec_number(),
            r.end.verse.spec_number() == chapter.verses(),
            r.end.verse_part is None,
            r.start.verse.wf(),
            r.end.verse.wf(),
    {
        proof {
            use_type_invariant(&chapter);
            chapter.spec_book().lemma_table_bounds(chapter.spec_number() as int);
        }
        let last = VerseNumber::try_from(chapter.max_verse_count().unwrap()).unwrap();
        Self::builder().start_at(
            ScriptureVerseRef::builder().book(chapter.book()).chapter(chapter.number()).verse(
                VerseNumber::default(),
            ).build().unwrap(),
        ).end_at(
            ScriptureVerseRef::builder().book(chapter.book()).chapter(chapter.number()).verse(
                last,
            ).build().unwrap(),
        ).build().unwrap()
    }
}

impl FromSpecImpl<Chapter> for ScripturePassageRef {
    open spec fn obeys_from_spec() -> bool {
        false
    }

    open spec fn from_spec(chapter: Chapter) -> Self {
        arbitrary()
    }
}

} // verus!
