//! The operators of a citation.

use vstd::prelude::*;
use vstd::string::StringExecFns;

verus! {

/// An operator that joins the parts of a citation.
#[derive(Debug, Clone, Copy, PartialEq, Eq, Structural)]
pub enum Op {
    /// `;`: this citation and that one.
    And,
    /// A book's name before what is cited from the book.
    BookOf,
    /// `:` between a chapter and what is cited from the chapter.
    ChapterOf,
    /// `ff` behind a verse: the verse and those that follow.
    Following,
    /// `,` between the verses of a list.
    Select,
    /// `-` between the two ends of a range.
    Through,
}

impl Op {
    /// The name of the operator.
    pub open spec fn text(self) -> Seq<char> {
        match self {
            Op::And => "and"@,
            Op::BookOf => "book of"@,
            Op::ChapterOf => "chapter of"@,
            Op::Following => "following"@,
            Op::Select => "select"@,
            Op::Through => "through"@,
        }
    }

    /// The name of the operator.
    pub fn to_string(&self) -> (r: String)
        ensures
            r@ == self.text(),
    {
        let text = match self {
            Op::And => "and",
            Op::BookOf => "book of",
            Op::ChapterOf => "chapter of",
            Op::Following => "following",
            Op::Select => "select",
            Op::Through => "through",
        };
        String::from_str(text)
    }
}

} // verus!
