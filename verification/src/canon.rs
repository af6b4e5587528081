//! Canons: which books there are, and in what order.

use crate::bvc::Book;
use vstd::prelude::*;
use vstd::string::StringExecFns;

verus! {

/// The index of the first book of `books` at or after `from` that is
/// `book`, if there is one.
pub open spec fn find_book(books: Seq<Book>, book: Book, from: int) -> Option<int>
    decreases books.len() - from,
{
    if from < 0 || from >= books.len() {
        None
    } else if books[from] == book {
        Some(from)
    } else {
        find_book(books, book, from + 1)
    }
}

/// The position of `book` among `books`, counted from zero, if it is
/// one of them.
pub open spec fn position_in(books: Seq<Book>, book: Book) -> Option<u8> {
    match find_book(books, book, 0) {
        Some(i) => Some(i as u8),
        None => None,
    }
}

/// The book at `position` among `books`, counted from zero, if there
/// are that many.
pub open spec fn book_at(books: Seq<Book>, position: u8) -> Option<Book> {
    if position < books.len() {
        Some(books[position as int])
    } else {
        None
    }
}

/// Whether `books` can be a canon: no book stands in it twice, and
/// every position fits in a byte.
pub open spec fn canon_valid(books: Seq<Book>) -> bool {
    &&& books.len() <= 256
    &&& forall|i: int, j: int|
        0 <= i < j < books.len() ==> #[trigger] books[i] != #[trigger] books[j]
}

/// What `find_book` finds is the first place of the book at or after `from`.
pub proof fn lemma_find_book(books: Seq<Book>, book: Book, from: int)
    requires
        0 <= from,
    ensures
        match find_book(books, book, from) {
            Some(i) => from <= i < books.len() && books[i] == book && forall|j: int|
                from <= j < i ==> books[j] != book,
            None => forall|j: int| from <= j < books.len() ==> books[j] != book,
        },
    decreases books.len() - from,
{
    if from < books.len() && books[from] != book {
        lemma_find_book(books, book, from + 1);
    }
}

/// In a canon, a book's position is the one place where it stands, and
/// the book at that position is the book itself.
pub proof fn lemma_position(books: Seq<Book>, book: Book)
    requires
        canon_valid(books),
    ensures
        match position_in(books, book) {
            Some(p) => p < books.len() && books[p as int] == book && book_at(books, p) == Some(
                book,
            ),
            None => !books.contains(book),
        },
        forall|i: int|
            0 <= i < books.len() && books[i] == book ==> position_in(books, book) == Some(i as u8),
{
    lemma_find_book(books, book, 0);
    assert forall|i: int| 0 <= i < books.len() && books[i] == book implies position_in(
        books,
        book,
    ) == Some(i as u8) by {
        let found = find_book(books, book, 0);
        assert(found is Some);
        if found->0 < i {
            assert(books[found->0] != books[i]);
        }
    }
}

/// An ordered set of books.
pub trait Canonical {
    /// The books of the canon, in order.
    spec fn books(&self) -> Seq<Book>;

    /// The books are a canon: none stands twice, and positions fit in a byte.
    proof fn lemma_valid(&self)
        ensures
            canon_valid(self.books()),
    ;

    /// The books of the canon, in order.
    fn ordered_books(&self) -> (r: &[Book])
        ensures
            r@ == self.books(),
    ;

    /// The position of `book` in the canon, counted from zero, or `None`
    /// where the canon does not have the book.
    fn book_position(&self, book: Book) -> (r: Option<u8>)
        ensures
            r == position_in(self.books(), book),
    ;

    /// The book at `position`, counted from zero, or `None` where the
    /// canon has no more than `position` books.
    fn book_at_position(&self, position: u8) -> (r: Option<Book>)
        ensures
            r == book_at(self.books(), position),
    ;
}

/// The books of the Protestant canon that the library knows, in order.
pub const PROTESTANT_BOOKS: [Book; 7] = [
    Book::Genesis,
    Book::Exodus,
    Book::FirstKings,
    Book::SongOfSongs,
    Book::Obadiah,
    Book::Matthew,
    Book::Revelation,
];

/// The Protestant canon.
#[derive(Debug, Clone, Copy)]
pub struct ProtestantCanon;

impl Canonical for ProtestantCanon {
    open spec fn books(&self) -> Seq<Book> {
        PROTESTANT_BOOKS@
    }

    proof fn lemma_valid(&self) {
    }

    fn ordered_books(&self) -> (r: &[Book]) {
        &PROTESTANT_BOOKS
    }

    fn book_position(&self, book: Book) -> (r: Option<u8>) {
        find_position(self.ordered_books(), book)
    }

    fn book_at_position(&self, position: u8) -> (r: Option<Book>) {
        find_at(self.ordered_books(), position)
    }
}

/// Finds the position of `book` among `books`, of which there are no
/// more than 256.
pub fn find_position(books: &[Book], book: Book) -> (r: Option<u8>)
    requires
        books@.len() <= 256,
    ensures
        r == position_in(books@, book),
{
    let mut i: usize = 0;
    while i < books.len()
        invariant
            i <= books@.len() <= 256,
            find_book(books@, book, 0) == find_book(books@, book, i as int),
        decreases books.len() - i,
    {
        if books[i] == book {
            return Some(i as u8);
        }
        i = i + 1;
    }
    None
}

/// Finds the book at `position` among `books`.
pub fn find_at(books: &[Book], position: u8) -> (r: Option<Book>)
    ensures
        r == book_at(books@, position),
{
    if (position as usize) < books.len() {
        Some(books[position as usize])
    } else {
        None
    }
}

/// The message for a list of more than 256 books.
pub open spec fn too_many_books_message() -> Seq<char> {
    "a canon has no more than 256 books"@
}

/// The message for a list in which a book stands twice.
pub open spec fn repeated_book_message() -> Seq<char> {
    "a book stands twice in the canon"@
}

/// A canon of the books that it was made with, in the order in which
/// they were given.
#[derive(Debug)]
pub struct CustomCanon {
    list: Vec<Book>,
}

impl CustomCanon {
    /// The books were fit to be a canon when the canon was made.
    #[verifier::type_invariant]
    closed spec fn inv(self) -> bool {
        canon_valid(self.list@)
    }

    /// The books that the canon was made with.
    pub closed spec fn listed(&self) -> Seq<Book> {
        self.list@
    }

    /// The canon of `books`, in that order, or a message where there are
    /// more than 256 of them or one of them stands twice.
    pub fn new(books: Vec<Book>) -> (r: Result<Self, String>)
        ensures
            r is Ok <==> canon_valid(books@),
            r matches Ok(canon) ==> canon.listed() == books@ && canon.books() == books@,
            r matches Err(m) ==> m@ == (if books@.len() > 256 {
                too_many_books_message()
            } else {
                repeated_book_message()
            }),
    {
        if books.len() > 256 {
            return Err(String::from_str("a canon has no more than 256 books"));
        }
        let mut j: usize = 0;
        while j < books.len()
            invariant
                j <= books@.len() <= 256,
                forall|a: int, b: int| 0 <= a < b < j ==> #[trigger] books@[a] != #[trigger] books@[b],
            decreases books.len() - j,
        {
            let mut i: usize = 0;
            while i < j
                invariant
                    i <= j < books@.len() <= 256,
                    forall|a: int| 0 <= a < i ==> #[trigger] books@[a] != books@[j as int],
                decreases j - i,
            {
                if books[i] == books[j] {
                    return Err(String::from_str("a book stands twice in the canon"));
                }
                i = i + 1;
            }
            j = j + 1;
        }
        Ok(CustomCanon { list: books })
    }
}

impl Canonical for CustomCanon {
    open spec fn books(&self) -> Seq<Book> {
        if canon_valid(self.listed()) {
            self.listed()
        } else {
            Seq::empty()
        }
    }

    proof fn lemma_valid(&self) {
    }

    fn ordered_books(&self) -> (r: &[Book]) {
        proof {
            use_type_invariant(self);
        }
        self.list.as_slice()
    }

    fn book_position(&self, book: Book) -> (r: Option<u8>) {
        proof {
            use_type_invariant(self);
        }
        find_position(self.list.as_slice(), book)
    }

    fn book_at_position(&self, position: u8) -> (r: Option<Book>) {
        proof {
            use_type_invariant(self);
        }
        find_at(self.list.as_slice(), position)
    }
}

/// A value together with the canon in which it is looked at.
pub struct InCanon<'c, T, C: Canonical> {
    pub inner: T,
    pub canon: &'c C,
}

impl<'c, T, C: Canonical> InCanon<'c, T, C> {
    /// `inner`, looked at in `canon`.
    pub fn new(inner: T, canon: &'c C) -> (r: Self)
        ensures
            r.inner == inner,
            r.canon == canon,
    {
        Self { inner, canon }
    }
}

} // verus!
