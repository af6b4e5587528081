//! Scripture citations.
//!
//! A citation such as `John 1:1-3;8` is lexed into tokens ([`lexer`]),
//! parsed into a tree by precedence climbing ([`parser`]), and resolved
//! into the verses and passages that it selects, chapter by chapter
//! ([`parser::context`]).
//!
//! Books, chapters, verses and parts of verses are valid by construction
//! ([`bvc`]). Within a canon ([`canon`]) each of them has an ordinal for
//! where it begins and one for where what comes next begins
//! ([`scripture_span`]), so that places compare as numbers do.
//!
//! References as they are printed, and the builders that put them
//! together, are in [`scripture_ref_builder`] and [`scripture_reference`];
//! [`derive`] reads the chapters and verses of books from the attributes
//! of an enum's variants.

pub mod bvc;
pub mod canon;
pub mod derive;
pub mod lexer;
pub mod parser;
pub mod scripture_ref_builder;
pub mod scripture_reference;
pub mod scripture_span;
pub mod text;
