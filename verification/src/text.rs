//! Characters, decimal numerals and byte widths: the small verified toolkit
//! that the lexer, the number parsers and the message builders share.

use vstd::prelude::*;
use vstd::string::{StrSliceExecFns, StringExecFns};
use vstd::utf8::{
    encode_scalar, encode_utf8, has_width_1_encoding, has_width_2_encoding, has_width_3_encoding,
};

verus! {

/// Whether `c` is one of the ASCII decimal digits.
pub open spec fn is_digit(c: char) -> bool {
    '0' <= c <= '9'
}

/// Whether `c` is an ASCII letter.
pub open spec fn is_letter(c: char) -> bool {
    ('a' <= c <= 'z') || ('A' <= c <= 'Z')
}

/// Whether `c` carries the Unicode `White_Space` property.
pub open spec fn is_whitespace(c: char) -> bool {
    let u = c as u32;
    ||| 0x09 <= u <= 0x0D
    ||| u == 0x20
    ||| u == 0x85
    ||| u == 0xA0
    ||| u == 0x1680
    ||| 0x2000 <= u <= 0x200A
    ||| u == 0x2028
    ||| u == 0x2029
    ||| u == 0x202F
    ||| u == 0x205F
    ||| u == 0x3000
}

/// The ASCII lower-case form of `c`; characters other than `A`..`Z` are unchanged.
pub open spec fn ascii_lower(c: char) -> char {
    if 'A' <= c <= 'Z' {
        ((c as u32) + 32) as char
    } else {
        c
    }
}

/// `s` with every character replaced by its ASCII lower-case form.
pub open spec fn ascii_lower_text(s: Seq<char>) -> Seq<char> {
    Seq::new(s.len(), |i: int| ascii_lower(s[i]))
}

/// The number of bytes that `c` takes in UTF-8.
pub open spec fn utf8_width(c: char) -> nat {
    let u = c as u32;
    if u < 0x80 {
        1
    } else if u < 0x800 {
        2
    } else if u < 0x10000 {
        3
    } else {
        4
    }
}

/// The number of bytes that the text `s` takes in UTF-8.
pub open spec fn text_width(s: Seq<char>) -> nat
    decreases s.len(),
{
    if s.len() == 0 {
        0
    } else {
        text_width(s.drop_last()) + utf8_width(s.last())
    }
}

/// The value of the decimal digit `c`.
pub open spec fn digit_value(c: char) -> nat
    recommends
        is_digit(c),
{
    (c as u32 - '0' as u32) as nat
}

/// The character that writes the digit `d`.
pub open spec fn digit_char(d: nat) -> char
    recommends
        d < 10,
{
    ('0' as u32 + d) as char
}

/// The decimal numeral of `n`, without sign or leading zeros.
pub open spec fn decimal(n: nat) -> Seq<char>
    decreases n,
{
    if n < 10 {
        seq![digit_char(n)]
    } else {
        decimal(n / 10).push(digit_char(n % 10))
    }
}

/// Whether every character of `s` is a decimal digit.
pub open spec fn all_digits(s: Seq<char>) -> bool {
    forall|i: int| 0 <= i < s.len() ==> is_digit(#[trigger] s[i])
}

/// The number that the digits of `s` write, most significant first.
pub open spec fn digits_value(s: Seq<char>) -> nat
    decreases s.len(),
{
    if s.len() == 0 {
        0
    } else {
        digits_value(s.drop_last()) * 10 + digit_value(s.last())
    }
}

/// Why a text is not the numeral of an eight-bit unsigned number.
#[derive(Debug, Clone, Copy, PartialEq, Eq, Structural)]
pub enum NumberError {
    /// The text is empty.
    Empty,
    /// A character that is not a digit stands where a digit is needed.
    InvalidDigit,
    /// The number is greater than 255.
    PosOverflow,
}

/// Reads the digits of `s` from index `i` on, left to right, with `acc`
/// the value read so far. The first character that is no digit, or the
/// first digit that takes the value past 255, decides the error.
pub open spec fn scan_digits(s: Seq<char>, i: int, acc: nat) -> Result<u8, NumberError>
    decreases s.len() - i,
{
    if i < 0 || i >= s.len() {
        Ok(acc as u8)
    } else if !is_digit(s[i]) {
        Err(NumberError::InvalidDigit)
    } else if acc * 10 + digit_value(s[i]) > 255 {
        Err(NumberError::PosOverflow)
    } else {
        scan_digits(s, i + 1, acc * 10 + digit_value(s[i]))
    }
}

/// The eight-bit unsigned number that `s` writes: an optional `+`, then
/// one or more decimal digits whose value is at most 255.
pub open spec fn parse_u8(s: Seq<char>) -> Result<u8, NumberError> {
    if s.len() == 0 {
        Err(NumberError::Empty)
    } else {
        let body = if s[0] == '+' {
            s.drop_first()
        } else {
            s
        };
        if body.len() == 0 {
            Err(NumberError::InvalidDigit)
        } else {
            scan_digits(body, 0, 0)
        }
    }
}

/// The index of the first character of `s` at or after `from` that is not
/// white space, or the length of `s` if there is none.
pub open spec fn skip_whitespace(s: Seq<char>, from: int) -> int
    decreases s.len() - from,
{
    if from < 0 || from >= s.len() {
        s.len() as int
    } else if is_whitespace(s[from]) {
        skip_whitespace(s, from + 1)
    } else {
        from
    }
}

/// The index just behind the last character of `s` before `to` that is not
/// white space, or `from` if there is none at or after `from`.
pub open spec fn trim_end_index(s: Seq<char>, from: int, to: int) -> int
    decreases to - from,
{
    if to <= from || to > s.len() || from < 0 {
        from
    } else if is_whitespace(s[to - 1]) {
        trim_end_index(s, from, to - 1)
    } else {
        to
    }
}

/// `s` without the white space at its start and at its end.
pub open spec fn trim(s: Seq<char>) -> Seq<char> {
    let start = skip_whitespace(s, 0);
    let end = trim_end_index(s, start, s.len() as int);
    s.subrange(start, end)
}

/// The name of a [`NumberError`] as it is written in messages.
pub open spec fn number_error_name(e: NumberError) -> Seq<char> {
    match e {
        NumberError::Empty => "Empty"@,
        NumberError::InvalidDigit => "InvalidDigit"@,
        NumberError::PosOverflow => "PosOverflow"@,
    }
}

impl NumberError {
    /// The name of this error as it is written in messages.
    pub fn name(&self) -> (r: &'static str)
        ensures
            r@ == number_error_name(*self),
    {
        match self {
            NumberError::Empty => "Empty",
            NumberError::InvalidDigit => "InvalidDigit",
            NumberError::PosOverflow => "PosOverflow",
        }
    }
}

/// Tests whether `c` is an ASCII decimal digit.
pub fn char_is_digit(c: char) -> (r: bool)
    ensures
        r == is_digit(c),
{
    '0' <= c && c <= '9'
}

/// Tests whether `c` is an ASCII letter.
pub fn char_is_letter(c: char) -> (r: bool)
    ensures
        r == is_letter(c),
{
    ('a' <= c && c <= 'z') || ('A' <= c && c <= 'Z')
}

/// Tests whether `c` is white space.
pub fn char_is_whitespace(c: char) -> (r: bool)
    ensures
        r == is_whitespace(c),
{
    let u: u32 = c as u32;
    (0x09 <= u && u <= 0x0D) || u == 0x20 || u == 0x85 || u == 0xA0 || u == 0x1680 || (0x2000 <= u
        && u <= 0x200A) || u == 0x2028 || u == 0x2029 || u == 0x202F || u == 0x205F || u == 0x3000
}

/// Tests whether `a` and `b` are the same character once ASCII case is put aside.
pub fn char_eq_ignore_ascii_case(a: char, b: char) -> (r: bool)
    ensures
        r == (ascii_lower(a) == ascii_lower(b)),
{
    let x: u32 = a as u32;
    let y: u32 = b as u32;
    let lx: u32 = if 'A' <= a && a <= 'Z' {
        x + 32
    } else {
        x
    };
    let ly: u32 = if 'A' <= b && b <= 'Z' {
        y + 32
    } else {
        y
    };
    lx == ly
}

/// The number of bytes that `c` takes in UTF-8.
pub fn char_width(c: char) -> (r: usize)
    ensures
        r == utf8_width(c),
        1 <= r <= 4,
{
    let u: u32 = c as u32;
    if u < 0x80 {
        1
    } else if u < 0x800 {
        2
    } else if u < 0x10000 {
        3
    } else {
        4
    }
}

/// The width of a text is the width of its parts, added.
pub proof fn lemma_text_width_concat(a: Seq<char>, b: Seq<char>)
    ensures
        text_width(a + b) == text_width(a) + text_width(b),
    decreases b.len(),
{
    if b.len() == 0 {
        assert(a + b =~= a);
    } else {
        lemma_text_width_concat(a, b.drop_last());
        assert((a + b).drop_last() =~= a + b.drop_last());
        assert((a + b).last() == b.last());
    }
}

/// A prefix of a text is no wider than the text.
pub proof fn lemma_text_width_prefix(s: Seq<char>, i: int)
    requires
        0 <= i <= s.len(),
    ensures
        text_width(s.take(i)) <= text_width(s),
        i < s.len() ==> text_width(s.take(i + 1)) == text_width(s.take(i)) + utf8_width(s[i]),
{
    lemma_text_width_concat(s.take(i), s.skip(i));
    assert(s.take(i) + s.skip(i) =~= s);
    if i < s.len() {
        assert(s.take(i + 1).drop_last() =~= s.take(i));
        assert(s.take(i + 1).last() == s[i]);
    }
}

/// A character's width is the length of its UTF-8 encoding.
pub proof fn lemma_utf8_width_is_encoded_len(c: char)
    ensures
        encode_scalar(c as u32).len() == utf8_width(c),
{
    let u = c as u32;
    assert(has_width_1_encoding(u) <==> u < 0x80);
    assert(has_width_2_encoding(u) <==> 0x80 <= u < 0x800);
    assert(has_width_3_encoding(u) <==> 0x800 <= u < 0x10000);
}

/// The width of a text is the length of its UTF-8 encoding.
pub proof fn lemma_text_width_is_encoded_len(s: Seq<char>)
    ensures
        encode_utf8(s).len() == text_width(s),
    decreases s.len(),
{
    if s.len() == 0 {
    } else {
        lemma_encode_utf8_len_first(s);
        lemma_text_width_is_encoded_len(s.drop_first());
        lemma_text_width_concat(seq![s[0]], s.drop_first());
        assert(seq![s[0]] + s.drop_first() =~= s);
        assert(seq![s[0]].drop_last() =~= Seq::<char>::empty());
        assert(text_width(seq![s[0]]) == utf8_width(s[0])) by {
            assert(text_width(seq![s[0]].drop_last()) == 0);
        }
    }
}

/// The encoding of a text is that of its first character, then that of the rest.
proof fn lemma_encode_utf8_len_first(s: Seq<char>)
    requires
        s.len() > 0,
    ensures
        encode_utf8(s).len() == utf8_width(s[0]) + encode_utf8(s.drop_first()).len(),
{
    lemma_utf8_width_is_encoded_len(s[0]);
}

/// The digits 0 to 9 as one-character texts.
fn digit_str(d: u8) -> (r: &'static str)
    requires
        d < 10,
    ensures
        r@ == seq![digit_char(d as nat)],
{
    proof {
        reveal_strlit("0");
        reveal_strlit("1");
        reveal_strlit("2");
        reveal_strlit("3");
        reveal_strlit("4");
        reveal_strlit("5");
        reveal_strlit("6");
        reveal_strlit("7");
        reveal_strlit("8");
        reveal_strlit("9");
    }
    let r = if d == 0 {
        "0"
    } else if d == 1 {
        "1"
    } else if d == 2 {
        "2"
    } else if d == 3 {
        "3"
    } else if d == 4 {
        "4"
    } else if d == 5 {
        "5"
    } else if d == 6 {
        "6"
    } else if d == 7 {
        "7"
    } else if d == 8 {
        "8"
    } else {
        "9"
    };
    assert(r@ =~= seq![digit_char(d as nat)]);
    r
}

/// Writes `n` as a decimal numeral.
pub fn u8_to_string(n: u8) -> (s: String)
    ensures
        s@ == decimal(n as nat),
{
    let mut s = String::new();
    if n >= 100 {
        s.append(digit_str(n / 100));
    }
    if n >= 10 {
        s.append(digit_str((n / 10) % 10));
    }
    s.append(digit_str(n % 10));
    proof {
        reveal_with_fuel(decimal, 3);
        assert(s@ =~= decimal(n as nat));
    }
    s
}

/// Writes `n` as a decimal numeral.
pub fn u32_to_string(n: u32) -> (s: String)
    ensures
        s@ == decimal(n as nat),
    decreases n,
{
    if n < 10 {
        String::from_str(digit_str(n as u8))
    } else {
        let mut s = u32_to_string(n / 10);
        s.append(digit_str((n % 10) as u8));
        s
    }
}

/// The characters of `s`, in order.
pub fn to_chars(s: &str) -> (v: Vec<char>)
    ensures
        v@ == s@,
{
    let mut v: Vec<char> = Vec::new();
    for c in it: s.chars()
        invariant
            v@ == it.seq().take(it.index() as int),
            it.seq() == s@,
    {
        v.push(c);
    }
    v
}

/// The lower-case form of a text, as the standard library's
/// `str::to_lowercase` gives it.
pub uninterp spec fn lowercase(s: Seq<char>) -> Seq<char>;

/// Calls `str::to_lowercase`: the result is the lower-case form of `s`,
/// a function of the characters of `s` alone.
#[verifier::external_body]
pub(crate) fn to_lowercase(s: &str) -> (r: String)
    ensures
        r@ == lowercase(s@),
{
    s.to_lowercase()
}

/// Tests whether `a` and `b` are the same text.
pub fn same_text(a: &str, b: &str) -> (r: bool)
    ensures
        r == (a@ == b@),
{
    let x = String::from_str(a);
    let y = String::from_str(b);
    x == y
}

/// Finds the first character at or after `from` that is not white space.
pub fn skip_whitespace_from(chars: &Vec<char>, from: usize) -> (r: usize)
    requires
        from <= chars.len(),
    ensures
        r == skip_whitespace(chars@, from as int),
        from <= r <= chars.len(),
{
    let mut i: usize = from;
    while i < chars.len() && char_is_whitespace(chars[i])
        invariant
            from <= i <= chars.len(),
            skip_whitespace(chars@, from as int) == skip_whitespace(chars@, i as int),
        decreases chars.len() - i,
    {
        i = i + 1;
    }
    i
}

/// Finds the end of the text between `from` and `to` once the white space
/// before `to` is left out.
pub fn trim_end_from(chars: &Vec<char>, from: usize, to: usize) -> (r: usize)
    requires
        from <= to <= chars.len(),
    ensures
        r == trim_end_index(chars@, from as int, to as int),
        from <= r <= to,
{
    let mut j: usize = to;
    while j > from && char_is_whitespace(chars[j - 1])
        invariant
            from <= j <= to,
            to <= chars.len(),
            trim_end_index(chars@, from as int, to as int) == trim_end_index(
                chars@,
                from as int,
                j as int,
            ),
        decreases j - from,
    {
        j = j - 1;
    }
    j
}

/// `s` without the white space at its start and at its end.
pub fn trim_str(s: &str) -> (r: &str)
    ensures
        r@ == trim(s@),
{
    let chars = to_chars(s);
    let start = skip_whitespace_from(&chars, 0);
    let end = trim_end_from(&chars, start, chars.len());
    s.substring_char(start, end)
}

/// Reads the characters of `chars` from `start` up to `end` as an
/// eight-bit unsigned number.
pub fn parse_u8_range(chars: &Vec<char>, start: usize, end: usize) -> (r: Result<u8, NumberError>)
    requires
        start <= end <= chars.len(),
    ensures
        r == parse_u8(chars@.subrange(start as int, end as int)),
{
    let ghost s = chars@.subrange(start as int, end as int);
    if start == end {
        return Err(NumberError::Empty);
    }
    let first: usize = if chars[start] == '+' {
        start + 1
    } else {
        start
    };
    let ghost body = if s[0] == '+' {
        s.drop_first()
    } else {
        s
    };
    assert(body =~= chars@.subrange(first as int, end as int));
    if first == end {
        return Err(NumberError::InvalidDigit);
    }
    let mut i: usize = first;
    let mut acc: u8 = 0;
    assert(parse_u8(s) == scan_digits(body, 0, 0));
    while i < end
        invariant
            start <= first <= i <= end <= chars.len(),
            body == chars@.subrange(first as int, end as int),
            parse_u8(chars@.subrange(start as int, end as int)) == scan_digits(
                body,
                i - first,
                acc as nat,
            ),
        decreases end - i,
    {
        let c = chars[i];
        assert(body[i - first] == c);
        if !char_is_digit(c) {
            return Err(NumberError::InvalidDigit);
        }
        let d: u8 = (c as u32 - '0' as u32) as u8;
        if acc > 25 || (acc == 25 && d > 5) {
            return Err(NumberError::PosOverflow);
        }
        acc = acc * 10 + d;
        i = i + 1;
    }
    Ok(acc)
}

/// Reads `s` as an eight-bit unsigned number.
pub fn parse_u8_str(s: &str) -> (r: Result<u8, NumberError>)
    ensures
        r == parse_u8(s@),
{
    let chars = to_chars(s);
    assert(chars@.subrange(0, chars@.len() as int) =~= chars@);
    parse_u8_range(&chars, 0, chars.len())
}

/// A decimal numeral is not empty, is all digits, and writes its number.
pub proof fn lemma_decimal(n: nat)
    ensures
        decimal(n).len() > 0,
        all_digits(decimal(n)),
        digits_value(decimal(n)) == n,
    decreases n,
{
    if n < 10 {
        assert(decimal(n).drop_last() =~= Seq::<char>::empty());
        assert(digits_value(decimal(n).drop_last()) == 0);
        assert(digit_value(digit_char(n)) == n);
    } else {
        lemma_decimal(n / 10);
        let d = decimal(n / 10);
        assert(decimal(n).drop_last() =~= d);
        assert(decimal(n).last() == digit_char(n % 10));
        assert(digit_value(digit_char(n % 10)) == n % 10);
        assert forall|i: int| 0 <= i < decimal(n).len() implies is_digit(
            #[trigger] decimal(n)[i],
        ) by {
            if i < d.len() {
                assert(decimal(n)[i] == d[i]);
            }
        }
    }
}

/// A text of digits only, not empty, is read as its value, or is too large.
pub proof fn lemma_parse_u8_digits(s: Seq<char>)
    requires
        s.len() > 0,
        all_digits(s),
    ensures
        digits_value(s) <= 255 ==> parse_u8(s) == Ok::<u8, NumberError>(digits_value(s) as u8),
        digits_value(s) > 255 ==> parse_u8(s) == Err::<u8, NumberError>(NumberError::PosOverflow),
{
    assert(is_digit(s[0]));
    lemma_scan_digits(s, 0);
    assert(s.take(0) =~= Seq::<char>::empty());
    assert(s.take(s.len() as int) =~= s);
}

/// What reading on from index `i` gives, once the digits before it have
/// been read without overflow.
proof fn lemma_scan_digits(s: Seq<char>, i: int)
    requires
        0 <= i <= s.len(),
        all_digits(s),
        digits_value(s.take(i)) <= 255,
    ensures
        digits_value(s) <= 255 ==> scan_digits(s, i, digits_value(s.take(i))) == Ok::<
            u8,
            NumberError,
        >(digits_value(s) as u8),
        digits_value(s) > 255 ==> scan_digits(s, i, digits_value(s.take(i))) == Err::<
            u8,
            NumberError,
        >(NumberError::PosOverflow),
    decreases s.len() - i,
{
    if i == s.len() {
        assert(s.take(i) =~= s);
    } else {
        assert(is_digit(s[i]));
        assert(s.take(i + 1).drop_last() =~= s.take(i));
        assert(s.take(i + 1).last() == s[i]);
        let next = digits_value(s.take(i)) * 10 + digit_value(s[i]);
        assert(digits_value(s.take(i + 1)) == next);
        if next > 255 {
            lemma_digits_value_monotone(s, i + 1);
        } else {
            lemma_scan_digits(s, i + 1);
        }
    }
}

/// The value of a prefix of digits is at most the value of the whole.
proof fn lemma_digits_value_monotone(s: Seq<char>, i: int)
    requires
        0 <= i <= s.len(),
    ensures
        digits_value(s.take(i)) <= digits_value(s),
    decreases s.len() - i,
{
    if i == s.len() {
        assert(s.take(i) =~= s);
    } else {
        assert(s.take(i + 1).drop_last() =~= s.take(i));
        lemma_digits_value_monotone(s, i + 1);
    }
}

} // verus!
