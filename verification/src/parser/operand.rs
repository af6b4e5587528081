//! The operands of a citation.

use crate::bvc::Book;
use crate::text::{decimal, u8_to_string};
use vstd::prelude::*;
use vstd::string::StringExecFns;

verus! {

/// What an operator is applied to, at the leaves of a citation.
#[derive(Debug, Clone, Copy, PartialEq, Eq, Structural)]
pub enum Atom {
    /// A book.
    Book(Book),
    /// A number.
    Number(u8),
    /// Nothing.
    Nil,
}

impl Atom {
    /// How the operand is printed.
    pub open spec fn text(self) -> Seq<char> {
        match self {
            Atom::Book(b) => b.display_name(),
            Atom::Number(n) => decimal(n as nat),
            Atom::Nil => "nil"@,
        }
    }

    /// The operand as it is printed.
    pub fn to_string(&self) -> (r: String)
        ensures
            r@ == self.text(),
    {
        match self {
            Atom::Book(b) => b.to_string(),
            Atom::Number(n) => u8_to_string(*n),
            Atom::Nil => String::from_str("nil"),
        }
    }
}

} // verus!
