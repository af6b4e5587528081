//! What the declaration of an enum of books says about its books, and
//! which branches the answers to chapter and verse counts are made of.

use crate::derive::book_variant::{variant_data, BookVariantData, Variant};
use crate::derive::parse::{DeriveError, DeriveErrorView};
use vstd::prelude::*;
use vstd::string::StringExecFns;

verus! {

/// What a declaration declares.
#[derive(Debug, PartialEq, Eq)]
pub enum Data {
    /// An enum, with its variants in the order in which they are written.
    Enum(Vec<Variant>),
    /// Anything else: a struct or a union.
    Other,
}

/// A declaration: its name, and what it declares.
#[derive(Debug, PartialEq, Eq)]
pub struct DeriveInput {
    pub ident: String,
    pub data: Data,
}

/// What the declaration of an enum of books says about its books.
#[derive(Debug, PartialEq, Eq)]
pub struct BookEnumData {
    pub name: String,
    pub variants: Vec<BookVariantData>,
}

/// One branch of the answer to "how many chapters": the variant at
/// index `variant` has `chapters` chapters.
#[derive(Debug, Clone, Copy, PartialEq, Eq)]
pub struct ChapterArm {
    pub variant: usize,
    pub chapters: u8,
}

/// The branches that the answers for an enum of books are made of: for
/// the number of chapters, and, by the index of the variant, for the
/// verses of each chapter.
#[derive(Debug, PartialEq, Eq)]
pub struct GeneratedArms {
    pub chapters_arms: Vec<ChapterArm>,
    pub verses_arms: Vec<usize>,
}

/// The error for a declaration that declares no enum.
pub open spec fn not_an_enum(ident: Seq<char>) -> DeriveErrorView {
    DeriveErrorView { message: "Book can only be derived for enums"@, spanned: ident }
}

/// The error of the first of the first `count` of `variants` whose
/// attributes say nothing that holds together, if there is one.
pub open spec fn first_failure(variants: Seq<Variant>, count: int) -> Option<DeriveErrorView>
    decreases count,
{
    if count <= 0 {
        None
    } else {
        match first_failure(variants, count - 1) {
            Some(e) => Some(e),
            None => match variant_data(variants[count - 1]) {
                Err(e) => Some(e),
                Ok(_) => None,
            },
        }
    }
}

/// One branch for each of the first `count` variants that says how
/// many chapters its book has, in order.
pub open spec fn chapters_arms_of(variants: Seq<BookVariantData>, count: int) -> Seq<ChapterArm>
    decreases count,
{
    if count <= 0 {
        Seq::empty()
    } else {
        let before = chapters_arms_of(variants, count - 1);
        match variants[count - 1].num_chapters {
            Some(chapters) => before.push(
                ChapterArm { variant: (count - 1) as usize, chapters },
            ),
            None => before,
        }
    }
}

/// The index of each of the first `count` variants that gives the
/// verses of at least one chapter, in order.
pub open spec fn verses_arms_of(variants: Seq<BookVariantData>, count: int) -> Seq<usize>
    decreases count,
{
    if count <= 0 {
        Seq::empty()
    } else {
        let before = verses_arms_of(variants, count - 1);
        if variants[count - 1].max_verses_per_chapter@.len() > 0 {
            before.push((count - 1) as usize)
        } else {
            before
        }
    }
}

impl BookEnumData {
    /// Reads what `input` says about its books: it must declare an enum,
    /// and the attributes of each variant must hold together.
    pub fn from_derive_input(input: &DeriveInput) -> (r: Result<Self, DeriveError>)
        ensures
            match input.data {
                Data::Other => r matches Err(e) && e@ == not_an_enum(input.ident@),
                Data::Enum(variants) => match first_failure(variants@, variants@.len() as int) {
                    Some(e) => r matches Err(x) && x@ == e,
                    None => r matches Ok(data) && data.name@ == input.ident@
                        && data.variants@.len() == variants@.len() && forall|i: int|
                        0 <= i < variants@.len() ==> variant_data(variants@[i]) == Ok::<
                            _,
                            DeriveErrorView,
                        >((#[trigger] data.variants@[i])@),
                },
            },
    {
        let input_variants = match &input.data {
            Data::Enum(variants) => variants,
            Data::Other => {
                return Err(
                    DeriveError {
                        message: String::from_str("Book can only be derived for enums"),
                        spanned: input.ident.clone(),
                    },
                );
            },
        };
        let mut variants: Vec<BookVariantData> = Vec::new();
        let mut i: usize = 0;
        while i < input_variants.len()
            invariant
                input.data == Data::Enum(*input_variants),
                i <= input_variants@.len(),
                variants@.len() == i,
                first_failure(input_variants@, i as int) is None,
                forall|j: int|
                    0 <= j < i ==> variant_data(input_variants@[j]) == Ok::<_, DeriveErrorView>(
                        (#[trigger] variants@[j])@,
                    ),
            decreases input_variants.len() - i,
        {
            proof {
                lemma_failure_stays(input_variants@, i as int + 1, input_variants@.len() as int);
            }
            let data = BookVariantData::from_variant(&input_variants[i])?;
            variants.push(data);
            i = i + 1;
        }
        Ok(Self { name: input.ident.clone(), variants })
    }

    /// The branches that the answers are made of.
    pub fn generate(&self) -> (r: GeneratedArms)
        ensures
            r.chapters_arms@ == chapters_arms_of(self.variants@, self.variants@.len() as int),
            r.verses_arms@ == verses_arms_of(self.variants@, self.variants@.len() as int),
    {
        GeneratedArms {
            chapters_arms: self.generate_chapters_arms(),
            verses_arms: self.generate_verses_arms(),
        }
    }

    /// One branch for each variant that says how many chapters its book has.
    pub fn generate_chapters_arms(&self) -> (r: Vec<ChapterArm>)
        ensures
            r@ == chapters_arms_of(self.variants@, self.variants@.len() as int),
    {
        let mut arms: Vec<ChapterArm> = Vec::new();
        let mut i: usize = 0;
        while i < self.variants.len()
            invariant
                i <= self.variants@.len(),
                arms@ == chapters_arms_of(self.variants@, i as int),
            decreases self.variants.len() - i,
        {
            if let Some(chapters) = self.variants[i].num_chapters {
                arms.push(ChapterArm { variant: i, chapters });
            }
            i = i + 1;
        }
        arms
    }

    /// The index of each variant that gives the verses of at least one chapter.
    pub fn generate_verses_arms(&self) -> (r: Vec<usize>)
        ensures
            r@ == verses_arms_of(self.variants@, self.variants@.len() as int),
    {
        let mut arms: Vec<usize> = Vec::new();
        let mut i: usize = 0;
        while i < self.variants.len()
            invariant
                i <= self.variants@.len(),
                arms@ == verses_arms_of(self.variants@, i as int),
            decreases self.variants.len() - i,
        {
            if self.variants[i].max_verses_per_chapter.len() > 0 {
                arms.push(i);
            }
            i = i + 1;
        }
        arms
    }
}

/// Once a variant has failed, it stays the first that failed.
pub proof fn lemma_failure_stays(variants: Seq<Variant>, from: int, to: int)
    requires
        0 <= from <= to,
    ensures
        first_failure(variants, from) is Some ==> first_failure(variants, to) == first_failure(
            variants,
            from,
        ),
    decreases to - from,
{
    if from < to {
        lemma_failure_stays(variants, from, to - 1);
    }
}

} // verus!
