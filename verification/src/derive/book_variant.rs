//! What the attributes of one variant say about its book.

use crate::bvc::{
    chapter_out_of_range, chapter_out_of_range_message, table_entry, table_lookup, table_sum,
    table_total,
};
use crate::derive::parse::{
    parse_u8_array_from_string, parse_u8_from_string, u8_list_of, u8_of, DeriveError,
    DeriveErrorView,
};
use crate::text::same_text;
use vstd::prelude::*;
use vstd::string::StringExecFns;

verus! {

/// An attribute of a variant.
#[derive(Debug, PartialEq, Eq)]
pub enum Attribute {
    /// `name = "value"`: a single name, and a value that is a text.
    NameValue { name: String, value: String },
    /// An attribute of any other form.
    Other,
}

/// A variant of an enum: its name and its attributes, in the order in
/// which they are written.
#[derive(Debug, PartialEq, Eq)]
pub struct Variant {
    pub ident: String,
    pub attrs: Vec<Attribute>,
}

/// What the attributes of a variant say about its book.
#[derive(Debug, PartialEq, Eq)]
pub struct BookVariantData {
    pub name: String,
    pub num_chapters: Option<u8>,
    pub max_verses_per_chapter: Vec<u8>,
    pub series: Option<String>,
}

/// A [`BookVariantData`] as texts and sequences.
pub struct BookVariantView {
    pub name: Seq<char>,
    pub num_chapters: Option<u8>,
    pub max_verses_per_chapter: Seq<u8>,
    pub series: Option<Seq<char>>,
}

impl View for BookVariantData {
    type V = BookVariantView;

    open spec fn view(&self) -> BookVariantView {
        BookVariantView {
            name: self.name@,
            num_chapters: self.num_chapters,
            max_verses_per_chapter: self.max_verses_per_chapter@,
            series: match self.series {
                Some(s) => Some(s@),
                None => None,
            },
        }
    }
}

/// What has been read from the attributes of a variant.
pub struct Fields {
    pub num_chapters: Option<u8>,
    pub max_verses_per_chapter: Seq<u8>,
    pub series: Option<Seq<char>>,
}

/// What has been read once `attr` is read too. `chapters` holds the
/// number of chapters, `verses` the verses of each chapter with commas
/// between them, `series` the name of a series. An attribute of another
/// name or form says nothing, and one that is read again replaces what
/// was read before.
pub open spec fn read_attribute(fields: Fields, attr: Attribute) -> Result<
    Fields,
    DeriveErrorView,
> {
    match attr {
        Attribute::NameValue { name, value } => if name@ == "chapters"@ {
            match u8_of(value@) {
                Ok(n) => Ok(Fields { num_chapters: Some(n), ..fields }),
                Err(e) => Err(e),
            }
        } else if name@ == "verses"@ {
            match u8_list_of(value@) {
                Ok(verses) => Ok(Fields { max_verses_per_chapter: verses, ..fields }),
                Err(e) => Err(e),
            }
        } else if name@ == "series"@ {
            Ok(Fields { series: Some(value@), ..fields })
        } else {
            Ok(fields)
        },
        Attribute::Other => Ok(fields),
    }
}

/// What the first `count` of `attrs` say, read in order, or the error
/// of the first that cannot be read.
pub open spec fn read_attributes(attrs: Seq<Attribute>, count: int) -> Result<
    Fields,
    DeriveErrorView,
>
    decreases count,
{
    if count <= 0 {
        Ok(Fields { num_chapters: None, max_verses_per_chapter: Seq::empty(), series: None })
    } else {
        match read_attributes(attrs, count - 1) {
            Err(e) => Err(e),
            Ok(fields) => read_attribute(fields, attrs[count - 1]),
        }
    }
}

/// The error for a variant that gives verses for another number of
/// chapters than it says its book has.
pub open spec fn chapters_mismatch(ident: Seq<char>) -> DeriveErrorView {
    DeriveErrorView {
        message: "Number of chapters does not match number of verses"@,
        spanned: ident,
    }
}

/// What the attributes of `variant` say about its book, or why they
/// say nothing that holds together: where they give both the number of
/// chapters and the verses of the chapters, the two must agree.
pub open spec fn variant_data(variant: Variant) -> Result<BookVariantView, DeriveErrorView> {
    match read_attributes(variant.attrs@, variant.attrs@.len() as int) {
        Err(e) => Err(e),
        Ok(fields) => if fields.num_chapters matches Some(n) && fields.max_verses_per_chapter.len()
            > 0 && n != fields.max_verses_per_chapter.len() {
            Err(chapters_mismatch(variant.ident@))
        } else {
            Ok(
                BookVariantView {
                    name: variant.ident@,
                    num_chapters: fields.num_chapters,
                    max_verses_per_chapter: fields.max_verses_per_chapter,
                    series: fields.series,
                },
            )
        },
    }
}

impl BookVariantData {
    /// Reads what the attributes of `variant` say about its book.
    pub fn from_variant(variant: &Variant) -> (r: Result<Self, DeriveError>)
        ensures
            match variant_data(*variant) {
                Ok(data) => r matches Ok(d) && d@ == data,
                Err(e) => r matches Err(x) && x@ == e,
            },
    {
        let name = variant.ident.clone();
        let mut num_chapters: Option<u8> = None;
        let mut max_verses_per_chapter: Vec<u8> = Vec::new();
        let mut series: Option<String> = None;
        let mut i: usize = 0;
        while i < variant.attrs.len()
            invariant
                i <= variant.attrs@.len(),
                read_attributes(variant.attrs@, i as int) == Ok::<Fields, DeriveErrorView>(
                    Fields {
                        num_chapters,
                        max_verses_per_chapter: max_verses_per_chapter@,
                        series: match series {
                            Some(s) => Some(s@),
                            None => None,
                        },
                    },
                ),
            decreases variant.attrs.len() - i,
        {
            let ghost count = variant.attrs@.len() as int;
            proof {
                lemma_read_fails_on(variant.attrs@, i as int + 1, count);
            }
            match &variant.attrs[i] {
                Attribute::NameValue { name, value } => {
                    if same_text(name.as_str(), "chapters") {
                        num_chapters = Some(parse_u8_from_string(value.as_str())?);
                    } else if same_text(name.as_str(), "verses") {
                        max_verses_per_chapter = parse_u8_array_from_string(value.as_str())?;
                    } else if same_text(name.as_str(), "series") {
                        series = Some(value.clone());
                    }
                },
                Attribute::Other => {},
            }
            i = i + 1;
        }
        if let Some(n) = num_chapters {
            if max_verses_per_chapter.len() > 0 && n as usize != max_verses_per_chapter.len() {
                return Err(
                    DeriveError {
                        message: String::from_str(
                            "Number of chapters does not match number of verses",
                        ),
                        spanned: variant.ident.clone(),
                    },
                );
            }
        }
        let data = Self { name, num_chapters, max_verses_per_chapter, series };
        proof {
            let expected = variant_data(*variant)->Ok_0;
            assert(data@.max_verses_per_chapter =~= expected.max_verses_per_chapter);
        }
        Ok(data)
    }

    /// The number of chapters of the book, where the variant says it.
    pub fn chapter_count(&self) -> (r: Option<u8>)
        ensures
            r == self.num_chapters,
    {
        self.num_chapters
    }

    /// The greatest number of verses of each chapter of the book,
    /// chapter 1 first.
    pub fn max_verse_count_by_chapter(&self) -> (r: &[u8])
        ensures
            r@ == self.max_verses_per_chapter@,
    {
        self.max_verses_per_chapter.as_slice()
    }

    /// The greatest number of verses that chapter `chapter` of the book
    /// can have, or a message where the book has no such chapter.
    pub fn max_verses_in_chapter(&self, chapter: u8) -> (r: Result<u8, String>)
        ensures
            r.ok() == table_lookup(self.max_verses_per_chapter@, chapter),
            r matches Err(m) ==> m@ == chapter_out_of_range_message(self.name@, chapter),
    {
        match table_entry(self.max_verses_per_chapter.as_slice(), chapter) {
            Some(n) => Ok(n),
            None => Err(chapter_out_of_range(self.name.as_str(), chapter)),
        }
    }

    /// The number of verses in the whole book, for a book that has no
    /// more than 255 of them.
    pub fn verse_count(&self) -> (r: u8)
        requires
            table_sum(self.max_verses_per_chapter@) <= u8::MAX,
        ensures
            r == table_sum(self.max_verses_per_chapter@),
    {
        table_total(self.max_verses_per_chapter.as_slice())
    }
}

/// Once an attribute cannot be read, reading further ones changes nothing.
pub proof fn lemma_read_fails_on(attrs: Seq<Attribute>, from: int, to: int)
    requires
        0 <= from <= to,
    ensures
        read_attributes(attrs, from) is Err ==> read_attributes(attrs, to) == read_attributes(
            attrs,
            from,
        ),
    decreases to - from,
{
    if from < to {
        lemma_read_fails_on(attrs, from, to - 1);
    }
}

} // verus!
