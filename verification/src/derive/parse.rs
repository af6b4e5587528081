//! Reading the numbers that the attributes of a book hold.

use crate::text::{parse_u8, parse_u8_str, to_chars, trim, trim_str};
use vstd::prelude::*;
use vstd::string::{StrSliceExecFns, StringExecFns};

verus! {

/// Why a declaration cannot be turned into a table of books: the
/// message, and the piece of the declaration that it is about.
#[derive(Debug, PartialEq, Eq)]
pub struct DeriveError {
    pub message: String,
    pub spanned: String,
}

/// A [`DeriveError`] as texts.
pub struct DeriveErrorView {
    pub message: Seq<char>,
    pub spanned: Seq<char>,
}

impl View for DeriveError {
    type V = DeriveErrorView;

    open spec fn view(&self) -> DeriveErrorView {
        DeriveErrorView { message: self.message@, spanned: self.spanned@ }
    }
}

/// The error for a text that writes no eight-bit number: it points at
/// the text in double quotes.
pub open spec fn invalid_u8(s: Seq<char>) -> DeriveErrorView {
    DeriveErrorView { message: "expected a valid u8 value"@, spanned: "\""@ + s + "\""@ }
}

/// The number that `s` writes once the white space around it is left out.
pub open spec fn u8_of(s: Seq<char>) -> Result<u8, DeriveErrorView> {
    match parse_u8(trim(s)) {
        Ok(n) => Ok(n),
        Err(_) => Err(invalid_u8(s)),
    }
}

/// The index of the first comma of `s` at or after `from`, or the
/// length of `s` if there is none.
pub open spec fn next_comma(s: Seq<char>, from: int) -> int
    decreases s.len() - from,
{
    if from < 0 || from >= s.len() {
        s.len() as int
    } else if s[from] == ',' {
        from
    } else {
        next_comma(s, from + 1)
    }
}

/// The numbers that the pieces of `s` between commas write, from the
/// piece that begins at `from` on, put behind `values`; or the error of
/// the first piece that writes none. White space around a piece does not
/// count, and the error points at the piece without it.
pub open spec fn u8_list_from(s: Seq<char>, from: int, values: Seq<u8>) -> Result<
    Seq<u8>,
    DeriveErrorView,
>
    decreases s.len() - from,
{
    let comma = next_comma(s, from);
    if 0 <= from <= comma <= s.len() {
        match u8_of(trim(s.subrange(from, comma))) {
            Err(e) => Err(e),
            Ok(n) => if comma >= s.len() {
                Ok(values.push(n))
            } else {
                u8_list_from(s, comma + 1, values.push(n))
            },
        }
    } else {
        Ok(values)
    }
}

/// The numbers that `s` writes with commas between them.
pub open spec fn u8_list_of(s: Seq<char>) -> Result<Seq<u8>, DeriveErrorView> {
    u8_list_from(s, 0, Seq::empty())
}

/// Reads `s` as an eight-bit number: white space around it does not count.
pub fn parse_u8_from_string(s: &str) -> (r: Result<u8, DeriveError>)
    ensures
        match u8_of(s@) {
            Ok(n) => r == Ok::<u8, DeriveError>(n),
            Err(e) => r matches Err(x) && x@ == e,
        },
{
    match parse_u8_str(trim_str(s)) {
        Ok(n) => Ok(n),
        Err(_) => {
            let mut spanned = String::from_str("\"");
            spanned.append(s);
            spanned.append("\"");
            Err(DeriveError { message: String::from_str("expected a valid u8 value"), spanned })
        },
    }
}

/// Reads `s` as eight-bit numbers with commas between them.
pub fn parse_u8_array_from_string(s: &str) -> (r: Result<Vec<u8>, DeriveError>)
    ensures
        match u8_list_of(s@) {
            Ok(values) => r matches Ok(v) && v@ == values,
            Err(e) => r matches Err(x) && x@ == e,
        },
{
    let chars = to_chars(s);
    let mut values: Vec<u8> = Vec::new();
    let mut from: usize = 0;
    loop
        invariant
            chars@ == s@,
            from <= chars@.len(),
            u8_list_of(s@) == u8_list_from(s@, from as int, values@),
        decreases chars@.len() - from,
    {
        let comma = find_comma(&chars, from);
        let part = trim_str(s.substring_char(from, comma));
        let n = parse_u8_from_string(part)?;
        values.push(n);
        if comma >= chars.len() {
            return Ok(values);
        }
        from = comma + 1;
    }
}

/// Finds the first comma at or after `from`.
fn find_comma(chars: &Vec<char>, from: usize) -> (r: usize)
    requires
        from <= chars.len(),
    ensures
        r == next_comma(chars@, from as int),
        from <= r <= chars.len(),
{
    let mut i: usize = from;
    while i < chars.len() && chars[i] != ','
        invariant
            from <= i <= chars.len(),
            next_comma(chars@, from as int) == next_comma(chars@, i as int),
        decreases chars.len() - i,
    {
        i = i + 1;
    }
    i
}

} // verus!
