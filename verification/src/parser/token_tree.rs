//! The tree that the parser builds from a citation.

use crate::bvc::Book;
use crate::text::{decimal, u8_to_string};
use vstd::prelude::*;
use vstd::std_specs::convert::TryIntoSpecImpl;
use vstd::string::StringExecFns;

verus! {

/// A citation, or a part of one, as a tree. The tree only records how
/// the citation was written: nothing in it is held against a book's
/// chapters or a chapter's verses.
#[derive(Debug, PartialEq)]
pub enum Node {
    /// Two citations joined by `;`.
    And(Box<Node>, Box<Node>),
    /// A book.
    Book(Book),
    /// A citation within a book.
    InBook(Book, Box<Node>),
    /// A citation within a chapter of the book around it.
    InChapter(u8, Box<Node>),
    /// The range from the first citation to the second, both included.
    Through(Box<Node>, Box<Node>),
    /// Two verses, or ranges of verses, joined by `,`.
    Select(Box<Node>, Box<Node>),
    /// A number, whose meaning depends on where it stands.
    Number(u8),
    /// Nothing.
    Nil,
}

/// The message for a node that stands where a number is needed.
pub open spec fn not_a_number_message(node: Node) -> Seq<char> {
    node.text() + " is not a number"@
}

impl Node {
    /// How the tree is read out in words.
    pub open spec fn text(self) -> Seq<char>
        decreases self,
    {
        match self {
            Node::And(left, right) => left.text() + " and(;) "@ + right.text(),
            Node::Book(book) => book.display_name(),
            Node::InBook(book, node) => node.text() + " in the book of "@ + book.display_name(),
            Node::InChapter(chapter, node) => "verse "@ + node.text() + " in chapter "@ + decimal(
                chapter as nat,
            ),
            Node::Through(initial, end) => initial.text() + " through "@ + end.text(),
            Node::Select(left, right) => "select "@ + left.text() + " and(,) "@ + right.text(),
            Node::Number(number) => decimal(number as nat),
            Node::Nil => "nil"@,
        }
    }

    /// The tree read out in words.
    pub fn to_string(&self) -> (r: String)
        ensures
            r@ == self.text(),
        decreases self,
    {
        match self {
            Node::And(left, right) => {
                let mut r = left.to_string();
                r.append(" and(;) ");
                r.append(right.to_string().as_str());
                r
            },
            Node::Book(book) => book.to_string(),
            Node::InBook(book, node) => {
                let mut r = node.to_string();
                r.append(" in the book of ");
                r.append(book.name());
                r
            },
            Node::InChapter(chapter, node) => {
                let mut r = String::from_str("verse ");
                r.append(node.to_string().as_str());
                r.append(" in chapter ");
                r.append(u8_to_string(*chapter).as_str());
                r
            },
            Node::Through(initial, end) => {
                let mut r = initial.to_string();
                r.append(" through ");
                r.append(end.to_string().as_str());
                r
            },
            Node::Select(left, right) => {
                let mut r = String::from_str("select ");
                r.append(left.to_string().as_str());
                r.append(" and(,) ");
                r.append(right.to_string().as_str());
                r
            },
            Node::Number(number) => u8_to_string(*number),
            Node::Nil => String::from_str("nil"),
        }
    }
}

impl Clone for Node {
    /// A copy of the tree.
    fn clone(&self) -> (r: Self)
        ensures
            r == *self,
        decreases self,
    {
        match self {
            Node::And(left, right) => Node::And(
                Box::new((**left).clone()),
                Box::new((**right).clone()),
            ),
            Node::Book(book) => Node::Book(*book),
            Node::InBook(book, node) => Node::InBook(*book, Box::new((**node).clone())),
            Node::InChapter(chapter, node) => Node::InChapter(
                *chapter,
                Box::new((**node).clone()),
            ),
            Node::Through(initial, end) => Node::Through(
                Box::new((**initial).clone()),
                Box::new((**end).clone()),
            ),
            Node::Select(left, right) => Node::Select(
                Box::new((**left).clone()),
                Box::new((**right).clone()),
            ),
            Node::Number(number) => Node::Number(*number),
            Node::Nil => Node::Nil,
        }
    }
}

impl TryInto<u8> for Node {
    type Error = String;

    /// The number that the node is, or a message where it is no number.
    fn try_into(self) -> (r: Result<u8, String>)
        ensures
            r is Ok <==> self is Number,
            r matches Ok(n) ==> self == Node::Number(n),
            r matches Err(m) ==> m@ == not_a_number_message(self),
    {
        match self {
            Node::Number(n) => Ok(n),
            other => {
                let mut m = other.to_string();
                m.append(" is not a number");
                Err(m)
            },
        }
    }
}

impl TryIntoSpecImpl<u8> for Node {
    open spec fn obeys_try_into_spec() -> bool {
        false
    }

    open spec fn try_into_spec(self) -> Result<u8, Self::Error> {
        arbitrary()
    }
}

} // verus!
