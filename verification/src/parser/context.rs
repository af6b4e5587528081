//! The resolver: from the parser's tree to the verses that a citation
//! selects, chapter by chapter.

use crate::bvc::Book;
use crate::parser::token_tree::Node;
use std::collections::HashMap;
use vstd::prelude::*;

verus! {

/// The number of a verse, or of a verse and the letter of a part of it.
#[derive(Debug, Clone, Copy, PartialEq)]
pub enum VerseRefNumber {
    Verse(u8),
    Phrase(u8, char),
}

/// The number of a chapter.
pub type ChapterRefNumber = u8;

/// A verse: the number of its chapter, then its own.
#[derive(Debug, Clone, Copy, PartialEq)]
pub struct VerseRef(pub ChapterRefNumber, pub VerseRefNumber);

/// A passage: from the first verse to the second, both included. The two
/// may stand in different chapters.
#[derive(Debug, Clone, Copy, PartialEq)]
pub struct PassageRef(pub VerseRef, pub VerseRef);

/// One piece of what a citation selects: a verse or a passage.
#[derive(Debug, Clone, Copy, PartialEq)]
pub enum VerseSelection {
    VerseSelection(VerseRef),
    PassageSelection(PassageRef),
}

/// Why a tree selects no verses.
#[derive(Debug, PartialEq)]
pub enum ResolveError {
    /// The node stands for verses of a chapter and is neither a number, a
    /// range of numbers, nor two such joined by `;`.
    UnsupportedVerseNode(Node),
    /// The node is a range whose ends are not both numbers.
    NonNumericRange(Node),
    /// The node stands at the top of the tree and is neither a book, a
    /// chapter with its verses, nor a range between two verses.
    UnsupportedNode(Node),
}

/// The single verse `verse` of chapter `chapter`.
pub open spec fn single(chapter: u8, verse: u8) -> VerseSelection {
    VerseSelection::VerseSelection(VerseRef(chapter, VerseRefNumber::Verse(verse)))
}

/// The passage from verse `from_verse` of chapter `from_chapter` to verse
/// `to_verse` of chapter `to_chapter`.
pub open spec fn passage(
    from_chapter: u8,
    from_verse: u8,
    to_chapter: u8,
    to_verse: u8,
) -> VerseSelection {
    VerseSelection::PassageSelection(
        PassageRef(
            VerseRef(from_chapter, VerseRefNumber::Verse(from_verse)),
            VerseRef(to_chapter, VerseRefNumber::Verse(to_verse)),
        ),
    )
}

/// What `node` selects of chapter `chapter`, in the order in which it is
/// written, and the error that ended the walk, if one did. What was
/// selected before an error stays selected.
///
/// A number is one verse. A range of two numbers is one passage. Two
/// nodes joined by `;` select what the first selects, then what the
/// second does.
pub open spec fn verse_selections(chapter: u8, node: Node) -> (
    Seq<VerseSelection>,
    Option<ResolveError>,
)
    decreases node,
{
    match node {
        Node::Number(verse) => (seq![single(chapter, verse)], None),
        Node::Through(start, end) => match (*start, *end) {
            (Node::Number(s), Node::Number(e)) => (seq![passage(chapter, s, chapter, e)], None),
            _ => (Seq::empty(), Some(ResolveError::NonNumericRange(node))),
        },
        Node::And(first, remaining) => {
            let (head, stopped) = verse_selections(chapter, *first);
            match stopped {
                Some(e) => (head, Some(e)),
                None => {
                    let (tail, stopped) = verse_selections(chapter, *remaining);
                    (head + tail, stopped)
                },
            }
        },
        _ => (Seq::empty(), Some(ResolveError::UnsupportedVerseNode(node))),
    }
}

/// The two ends of a range between verses, where each end is a chapter
/// with one verse number: the chapter and verse of the first, then of
/// the second.
pub open spec fn range_ends(start: Node, end: Node) -> Option<(u8, u8, u8, u8)> {
    match (start, end) {
        (Node::InChapter(from_chapter, from), Node::InChapter(to_chapter, to)) => match (
            *from,
            *to,
        ) {
            (Node::Number(from_verse), Node::Number(to_verse)) => Some(
                (from_chapter, from_verse, to_chapter, to_verse),
            ),
            _ => None,
        },
        _ => None,
    }
}

/// The selections of each chapter with `added` put behind those of
/// `chapter`. Nothing added leaves the chapters as they are.
pub open spec fn append_selections(
    selections: Map<u8, Seq<VerseSelection>>,
    chapter: u8,
    added: Seq<VerseSelection>,
) -> Map<u8, Seq<VerseSelection>> {
    if added.len() == 0 {
        selections
    } else if selections.contains_key(chapter) {
        selections.insert(chapter, selections[chapter] + added)
    } else {
        selections.insert(chapter, added)
    }
}

/// The book of a selection that is being put together.
pub struct ScriptureRefSelectionBuilder {
    pub book: Option<Book>,
}

impl ScriptureRefSelectionBuilder {
    /// A builder without a book.
    pub fn new() -> (r: Self)
        ensures
            r.book is None,
    {
        Self { book: None }
    }

    /// The builder with `book` for its book.
    pub fn with_book(self, book: Book) -> (r: Self)
        ensures
            r.book == Some(book),
    {
        let mut builder = self;
        builder.book = Some(book);
        builder
    }
}

/// Where the resolver stands in its walk.
#[derive(Debug, Clone, Copy, PartialEq, Eq, Structural)]
pub enum State {
    /// No book has been met.
    Initial,
    /// The book is set.
    Operating,
    /// The walk is over: what comes now is passed over.
    Done,
}

/// What a citation selects: its book, if it names one, and for each
/// chapter the verses and passages selected, in the order in which they
/// were written.
#[derive(Debug)]
pub struct ParsedScriptureRef {
    pub book: Option<Book>,
    pub verse_selection: HashMap<u8, Vec<VerseSelection>>,
}

impl ParsedScriptureRef {
    /// The selections of each chapter that has any.
    pub open spec fn selections(&self) -> Map<u8, Seq<VerseSelection>> {
        Map::new(
            |chapter: u8| self.verse_selection@.contains_key(chapter),
            |chapter: u8| self.verse_selection@[chapter]@,
        )
    }

    /// A reference without a book and without selections.
    pub fn new() -> (r: Self)
        ensures
            r.book is None,
            r.selections() == Map::<u8, Seq<VerseSelection>>::empty(),
    {
        let r = Self { book: None, verse_selection: HashMap::new() };
        assert(r.selections() =~= Map::<u8, Seq<VerseSelection>>::empty());
        r
    }

    /// Sets the book.
    pub fn set_book(&mut self, book: Book)
        ensures
            final(self).book == Some(book),
            final(self).verse_selection == old(self).verse_selection,
    {
        self.book = Some(book)
    }

    /// Puts `selection` behind the selections of `chapter`.
    pub fn add_verse_selection(&mut self, chapter: &u8, selection: VerseSelection)
        ensures
            final(self).book == old(self).book,
            final(self).selections() == append_selections(
                old(self).selections(),
                *chapter,
                seq![selection],
            ),
    {
        broadcast use vstd::std_specs::hash::group_hash_axioms;

        let ghost before = self.verse_selection@;
        let mut list = match self.verse_selection.remove(chapter) {
            Some(list) => list,
            None => Vec::new(),
        };
        let ghost existing = list@;
        list.push(selection);
        self.verse_selection.insert(*chapter, list);
        proof {
            let expected = append_selections(old(self).selections(), *chapter, seq![selection]);
            assert(self.verse_selection@ == before.remove(*chapter).insert(*chapter, list));
            assert(list@ =~= existing + seq![selection]);
            if before.contains_key(*chapter) {
                assert(existing == old(self).selections()[*chapter]);
            } else {
                assert(existing + seq![selection] =~= seq![selection]);
            }
            assert forall|c: u8| self.selections().contains_key(c) == expected.contains_key(c) by {}
            assert forall|c: u8| #[trigger]
                self.selections().contains_key(c) implies self.selections()[c] == expected[c] by {
                if c != *chapter {
                    assert(self.verse_selection@[c] == before[c]);
                }
            }
            assert(self.selections() =~= expected);
        }
    }
}

/// What one step of the resolver leaves: its state, the book and the
/// selections of the reference, and whether the step failed.
pub struct Step {
    pub state: State,
    pub book: Option<Book>,
    pub selections: Map<u8, Seq<VerseSelection>>,
    pub result: Result<(), ResolveError>,
}

/// What it leaves to resolve `node` where no book has been met.
///
/// A book, alone or with a citation within it, sets the book, and the
/// resolver goes on to `Operating`. A chapter with its verses adds what
/// the verses select to the chapter. A range from one chapter's verse to
/// another chapter's verse adds one passage to the chapter of its first
/// verse. Any other node is an error.
pub open spec fn process_node_spec(
    book: Option<Book>,
    selections: Map<u8, Seq<VerseSelection>>,
    node: Node,
) -> Step {
    match node {
        Node::Book(b) => Step { state: State::Operating, book: Some(b), selections, result: Ok(()) },
        Node::InBook(b, _) => Step {
            state: State::Operating,
            book: Some(b),
            selections,
            result: Ok(()),
        },
        Node::InChapter(chapter, verses) => {
            let (added, stopped) = verse_selections(chapter, *verses);
            Step {
                state: State::Initial,
                book,
                selections: append_selections(selections, chapter, added),
                result: match stopped {
                    Some(e) => Err(e),
                    None => Ok(()),
                },
            }
        },
        Node::Through(start, end) => match range_ends(*start, *end) {
            Some((from_chapter, from_verse, to_chapter, to_verse)) => Step {
                state: State::Initial,
                book,
                selections: append_selections(
                    selections,
                    from_chapter,
                    seq![passage(from_chapter, from_verse, to_chapter, to_verse)],
                ),
                result: Ok(()),
            },
            None => Step {
                state: State::Initial,
                book,
                selections,
                result: Err(ResolveError::NonNumericRange(node)),
            },
        },
        _ => Step {
            state: State::Initial,
            book,
            selections,
            result: Err(ResolveError::UnsupportedNode(node)),
        },
    }
}

/// What one step of the resolver leaves, from its state, the reference so
/// far, and the node that it is given.
///
/// Where no book has been met, the node is resolved. Once the book is
/// set, the next node ends the walk, and every node after that is passed
/// over: neither changes the reference.
pub open spec fn transition_spec(
    state: State,
    book: Option<Book>,
    selections: Map<u8, Seq<VerseSelection>>,
    node: Node,
) -> Step {
    match state {
        State::Initial => process_node_spec(book, selections, node),
        State::Operating => Step { state: State::Done, book, selections, result: Ok(()) },
        State::Done => Step { state: State::Done, book, selections, result: Ok(()) },
    }
}

/// The resolver: a state, and the reference that it puts together.
#[derive(Debug)]
pub struct Context {
    pub state: State,
    pub result: ParsedScriptureRef,
}

impl Context {
    /// A resolver that has met no book, with an empty reference.
    pub fn new() -> (r: Self)
        ensures
            r.state == State::Initial,
            r.result.book is None,
            r.result.selections() == Map::<u8, Seq<VerseSelection>>::empty(),
    {
        Self { state: State::Initial, result: ParsedScriptureRef::new() }
    }

    /// Takes one node: the one step of the resolver.
    pub fn transition(&mut self, node: Node) -> (r: Result<(), ResolveError>)
        ensures
            ({
                let step = transition_spec(
                    old(self).state,
                    old(self).result.book,
                    old(self).result.selections(),
                    node,
                );
                &&& r == step.result
                &&& final(self).state == step.state
                &&& final(self).result.book == step.book
                &&& final(self).result.selections() == step.selections
            }),
    {
        match self.state {
            State::Initial => self.process_node(node),
            State::Operating => {
                self.state = State::Done;
                Ok(())
            },
            State::Done => Ok(()),
        }
    }

    /// Resolves a node that stands at the top of the tree.
    fn process_node(&mut self, node: Node) -> (r: Result<(), ResolveError>)
        requires
            old(self).state == State::Initial,
        ensures
            ({
                let step = process_node_spec(
                    old(self).result.book,
                    old(self).result.selections(),
                    node,
                );
                &&& r == step.result
                &&& final(self).state == step.state
                &&& final(self).result.book == step.book
                &&& final(self).result.selections() == step.selections
            }),
    {
        match node {
            Node::Book(book) => {
                self.state = State::Operating;
                self.result.set_book(book);
                Ok(())
            },
            Node::InBook(book, _) => {
                self.state = State::Operating;
                self.result.set_book(book);
                Ok(())
            },
            Node::InChapter(chapter, verse_node) => self.process_verse_node(chapter, *verse_node),
            Node::Through(lhs, rhs) => match (*lhs, *rhs) {
                (Node::InChapter(from_chapter, from), Node::InChapter(to_chapter, to)) => match (
                    *from,
                    *to,
                ) {
                    (Node::Number(from_verse), Node::Number(to_verse)) => {
                        self.result.add_verse_selection(
                            &from_chapter,
                            VerseSelection::PassageSelection(
                                PassageRef(
                                    VerseRef(from_chapter, VerseRefNumber::Verse(from_verse)),
                                    VerseRef(to_chapter, VerseRefNumber::Verse(to_verse)),
                                ),
                            ),
                        );
                        Ok(())
                    },
                    (from, to) => Err(
                        ResolveError::NonNumericRange(
                            Node::Through(
                                Box::new(Node::InChapter(from_chapter, Box::new(from))),
                                Box::new(Node::InChapter(to_chapter, Box::new(to))),
                            ),
                        ),
                    ),
                },
                (lhs, rhs) => Err(
                    ResolveError::NonNumericRange(Node::Through(Box::new(lhs), Box::new(rhs))),
                ),
            },
            other => Err(ResolveError::UnsupportedNode(other)),
        }
    }

    /// Resolves a node that stands for verses of chapter `chapter`.
    fn process_verse_node(&mut self, chapter: u8, node: Node) -> (r: Result<(), ResolveError>)
        ensures
            final(self).state == old(self).state,
            final(self).result.book == old(self).result.book,
            final(self).result.selections() == append_selections(
                old(self).result.selections(),
                chapter,
                verse_selections(chapter, node).0,
            ),
            r == (match verse_selections(chapter, node).1 {
                Some(e) => Err::<(), ResolveError>(e),
                None => Ok::<(), ResolveError>(()),
            }),
        decreases node,
    {
        match node {
            Node::And(first, remaining) => {
                let ghost before = self.result.selections();
                let ghost head = verse_selections(chapter, *first).0;
                let ghost tail = verse_selections(chapter, *remaining).0;
                self.process_verse_node(chapter, *first)?;
                let r = self.process_verse_node(chapter, *remaining);
                proof {
                    lemma_append_twice(before, chapter, head, tail);
                }
                r
            },
            Node::Through(start, end) => match (*start, *end) {
                (Node::Number(s), Node::Number(e)) => {
                    self.result.add_verse_selection(
                        &chapter,
                        VerseSelection::PassageSelection(
                            PassageRef(
                                VerseRef(chapter, VerseRefNumber::Verse(s)),
                                VerseRef(chapter, VerseRefNumber::Verse(e)),
                            ),
                        ),
                    );
                    Ok(())
                },
                (start, end) => Err(
                    ResolveError::NonNumericRange(Node::Through(Box::new(start), Box::new(end))),
                ),
            },
            Node::Number(verse_number) => {
                self.result.add_verse_selection(
                    &chapter,
                    VerseSelection::VerseSelection(
                        VerseRef(chapter, VerseRefNumber::Verse(verse_number)),
                    ),
                );
                Ok(())
            },
            other => Err(ResolveError::UnsupportedVerseNode(other)),
        }
    }
}

/// Resolves a tree into what it selects: the one step of a resolver
/// that has met no book, on an empty reference.
pub fn resolve(node: Node) -> (r: Result<ParsedScriptureRef, ResolveError>)
    ensures
        ({
            let step = process_node_spec(None, Map::<u8, Seq<VerseSelection>>::empty(), node);
            match step.result {
                Ok(_) => r matches Ok(resolved) && resolved.book == step.book
                    && resolved.selections() == step.selections,
                Err(e) => r matches Err(x) && x == e,
            }
        }),
{
    let mut context = Context::new();
    match context.transition(node) {
        Ok(_) => Ok(context.result),
        Err(e) => Err(e),
    }
}

/// Adding to a chapter in two steps is adding the two lists joined.
pub proof fn lemma_append_twice(
    selections: Map<u8, Seq<VerseSelection>>,
    chapter: u8,
    head: Seq<VerseSelection>,
    tail: Seq<VerseSelection>,
)
    ensures
        append_selections(append_selections(selections, chapter, head), chapter, tail)
            == append_selections(selections, chapter, head + tail),
{
    if head.len() == 0 {
        assert(head + tail =~= tail);
    } else if tail.len() == 0 {
        assert(head + tail =~= head);
    } else {
        let once = append_selections(selections, chapter, head);
        if selections.contains_key(chapter) {
            assert((selections[chapter] + head) + tail =~= selections[chapter] + (head + tail));
        }
        assert(append_selections(once, chapter, tail) =~= append_selections(
            selections,
            chapter,
            head + tail,
        ));
    }
}

} // verus!
