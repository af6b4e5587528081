//! From the declaration of an enum of books, with the chapters and
//! verses of each book written in its attributes, to the table that
//! answers how many chapters a book has and how many verses a chapter.

pub mod book_enum;
pub mod book_variant;
pub mod parse;
