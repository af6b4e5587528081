use scripture_ref::derive::book_enum::{BookEnumData, ChapterArm, Data, DeriveInput};
use scripture_ref::derive::book_variant::{Attribute, BookVariantData, Variant};
use scripture_ref::derive::parse::{parse_u8_array_from_string, parse_u8_from_string};

fn attr(name: &str, value: &str) -> Attribute {
    Attribute::NameValue { name: name.to_string(), value: value.to_string() }
}

fn variant(ident: &str, attrs: Vec<Attribute>) -> Variant {
    Variant { ident: ident.to_string(), attrs }
}

/// The enum `Book` with the variants `Alpha = 1` (3 chapters of 31, 25
/// and 24 verses) and `Beta = 2` (2 chapters of 22 and 17 verses).
fn alpha_and_beta() -> BookEnumData {
    let input = DeriveInput {
        ident: "Book".to_string(),
        data: Data::Enum(vec![
            variant("Alpha", vec![attr("chapters", "3"), attr("verses", "31, 25, 24")]),
            variant("Beta", vec![attr("chapters", "2"), attr("verses", "22, 17")]),
        ]),
    };
    BookEnumData::from_derive_input(&input).unwrap()
}

#[test]
fn test_from_derive_input() {
    let input = DeriveInput {
        ident: "Book".to_string(),
        data: Data::Enum(vec![
            variant("Alpha", vec![attr("chapters", "3"), attr("verses", "31, 25, 24")]),
            variant("Beta", vec![attr("chapters", "2")]),
        ]),
    };

    let data = BookEnumData::from_derive_input(&input).unwrap();

    assert_eq!(data.name, "Book");
    assert_eq!(data.variants.len(), 2);

    let first_variant = &data.variants[0];
    assert_eq!(first_variant.name, "Alpha");
    assert_eq!(first_variant.num_chapters, Some(3));
    assert_eq!(first_variant.max_verses_per_chapter, vec![31, 25, 24]);

    let second_variant = &data.variants[1];
    assert_eq!(second_variant.name, "Beta");
    assert_eq!(second_variant.num_chapters, Some(2));
    assert!(second_variant.max_verses_per_chapter.is_empty());
}

#[test]
fn test_rejects_struct() {
    let input = DeriveInput { ident: "NotAnEnum".to_string(), data: Data::Other };
    let result = BookEnumData::from_derive_input(&input);
    assert!(result.is_err());
}

#[test]
fn test_parse_u8_from_string() {
    let result = parse_u8_from_string("24").unwrap();
    assert_eq!(result, 24);
}

#[test]
fn test_parse_u8_from_string_with_whitespace() {
    let result = parse_u8_from_string("  42  ").unwrap();
    assert_eq!(result, 42);
}

#[test]
fn test_parse_u8_from_string_invalid() {
    let result = parse_u8_from_string("not a number");
    assert!(result.is_err());
}

#[test]
fn test_parse_u8_from_string_out_of_range() {
    let result = parse_u8_from_string("300");
    assert!(result.is_err());
}

#[test]
fn test_parse_u8_array_from_string() {
    let result = parse_u8_array_from_string("24, 25, 26").unwrap();
    assert_eq!(result, vec![24, 25, 26]);
}

#[test]
fn test_parse_u8_array_from_string_single() {
    let result = parse_u8_array_from_string("42").unwrap();
    assert_eq!(result, vec![42]);
}

#[test]
fn test_parse_u8_array_from_string_with_whitespace() {
    let result = parse_u8_array_from_string("  1  ,  2  ,  3  ").unwrap();
    assert_eq!(result, vec![1, 2, 3]);
}

#[test]
fn test_chapter_count() {
    let book = alpha_and_beta();
    assert_eq!(book.variants[0].chapter_count(), Some(3));
    assert_eq!(book.variants[1].chapter_count(), Some(2));
}

#[test]
fn test_max_verse_count_by_chapter() {
    let book = alpha_and_beta();
    assert_eq!(book.variants[0].max_verse_count_by_chapter(), &[31, 25, 24]);
    assert_eq!(book.variants[1].max_verse_count_by_chapter(), &[22, 17]);
}

#[test]
fn test_max_verses_in_chapter() {
    let book = alpha_and_beta();
    let alpha = &book.variants[0];
    let beta = &book.variants[1];
    // Valid chapters (1-indexed)
    assert_eq!(alpha.max_verses_in_chapter(1).unwrap(), 31);
    assert_eq!(alpha.max_verses_in_chapter(3).unwrap(), 24);
    assert_eq!(beta.max_verses_in_chapter(2).unwrap(), 17);

    // Invalid chapters
    assert!(alpha.max_verses_in_chapter(0).is_err()); // 0 is invalid
    assert!(alpha.max_verses_in_chapter(4).is_err()); // out of bounds
    assert!(beta.max_verses_in_chapter(3).is_err()); // out of bounds
}

#[test]
fn test_verse_count() {
    let book = alpha_and_beta();
    assert_eq!(book.variants[0].verse_count(), 31 + 25 + 24);
    assert_eq!(book.variants[1].verse_count(), 22 + 17);
}

#[test]
fn numbers_are_read_as_the_standard_library_reads_them() {
    assert_eq!(parse_u8_from_string("0"), Ok(0));
    assert_eq!(parse_u8_from_string("255"), Ok(255));
    assert_eq!(parse_u8_from_string("+7"), Ok(7));
    assert_eq!(parse_u8_from_string("007"), Ok(7));
    assert_eq!(parse_u8_from_string("\u{a0}\t12\u{2003}\n"), Ok(12));
    for text in ["", "   ", "+", "-", "-1", "256", "1 2", "12a", "٣", "1,2", "+ 1", "++1"] {
        let e = parse_u8_from_string(text).unwrap_err();
        assert_eq!(e.message, "expected a valid u8 value");
        assert_eq!(e.spanned, format!("\"{}\"", text));
        assert_eq!(text.trim().parse::<u8>().ok(), None);
    }
    for text in ["0", "255", "+7", "007", " 12 ", "+0", "+255", "0000255"] {
        assert_eq!(parse_u8_from_string(text).ok(), text.trim().parse::<u8>().ok());
    }
}

#[test]
fn a_list_fails_with_its_first_piece_that_is_no_number() {
    assert_eq!(parse_u8_array_from_string("1,,3").unwrap_err().spanned, "\"\"");
    assert_eq!(parse_u8_array_from_string("").unwrap_err().spanned, "\"\"");
    assert_eq!(parse_u8_array_from_string("1, x ,300").unwrap_err().spanned, "\"x\"");
    assert_eq!(parse_u8_array_from_string("1, 300 , x").unwrap_err().spanned, "\"300\"");
    assert_eq!(parse_u8_array_from_string("1,2,").unwrap_err().spanned, "\"\"");
    assert_eq!(parse_u8_array_from_string(" 9 "), Ok(vec![9]));
    assert_eq!(parse_u8_array_from_string("0,255,+1"), Ok(vec![0, 255, 1]));
}

#[test]
fn a_variant_s_attributes_are_read_in_order() {
    let data = BookVariantData::from_variant(&variant(
        "FirstKings",
        vec![
            Attribute::Other,
            attr("chapters", "9"),
            attr("doc", "the first book of Kings"),
            attr("series", "Kings"),
            attr("chapters", " 2 "),
            attr("verses", "53,46"),
        ],
    ))
    .unwrap();
    assert_eq!(data.name, "FirstKings");
    assert_eq!(data.num_chapters, Some(2));
    assert_eq!(data.max_verses_per_chapter, vec![53, 46]);
    assert_eq!(data.series, Some("Kings".to_string()));

    let bare = BookVariantData::from_variant(&variant("Bare", vec![])).unwrap();
    assert_eq!(bare.num_chapters, None);
    assert!(bare.max_verses_per_chapter.is_empty());
    assert_eq!(bare.series, None);

    let verses_only =
        BookVariantData::from_variant(&variant("Loose", vec![attr("verses", "1,2,3")])).unwrap();
    assert_eq!(verses_only.num_chapters, None);
    assert_eq!(verses_only.max_verses_per_chapter, vec![1, 2, 3]);
}

#[test]
fn chapters_and_verses_must_agree() {
    let e = BookVariantData::from_variant(&variant(
        "Alpha",
        vec![attr("chapters", "3"), attr("verses", "31, 25")],
    ))
    .unwrap_err();
    assert_eq!(e.message, "Number of chapters does not match number of verses");
    assert_eq!(e.spanned, "Alpha");

    let e = BookVariantData::from_variant(&variant(
        "Beta",
        vec![attr("verses", "1,2,3,4"), attr("chapters", "1")],
    ))
    .unwrap_err();
    assert_eq!(e.message, "Number of chapters does not match number of verses");

    let chapters_only =
        BookVariantData::from_variant(&variant("Delta", vec![attr("chapters", "1")])).unwrap();
    assert_eq!(chapters_only.num_chapters, Some(1));
    assert!(chapters_only.max_verses_per_chapter.is_empty());

    let e = BookVariantData::from_variant(&variant(
        "Gamma",
        vec![attr("chapters", "three"), attr("verses", "x")],
    ))
    .unwrap_err();
    assert_eq!(e.message, "expected a valid u8 value");
    assert_eq!(e.spanned, "\"three\"");
}

#[test]
fn the_first_variant_that_fails_gives_the_error() {
    let input = DeriveInput {
        ident: "Book".to_string(),
        data: Data::Enum(vec![
            variant("Alpha", vec![attr("chapters", "1"), attr("verses", "5")]),
            variant("Beta", vec![attr("verses", "1,b")]),
            variant("Gamma", vec![attr("chapters", "c")]),
        ]),
    };
    let e = BookEnumData::from_derive_input(&input).unwrap_err();
    assert_eq!(e.spanned, "\"b\"");
    let e = BookEnumData::from_derive_input(&DeriveInput {
        ident: "Shelf".to_string(),
        data: Data::Other,
    })
    .unwrap_err();
    assert_eq!(e.message, "Book can only be derived for enums");
    assert_eq!(e.spanned, "Shelf");
}

#[test]
fn branches_are_made_for_the_variants_that_say_something() {
    let input = DeriveInput {
        ident: "Book".to_string(),
        data: Data::Enum(vec![
            variant("Alpha", vec![attr("chapters", "2"), attr("verses", "31, 25")]),
            variant("Bare", vec![]),
            variant("Loose", vec![attr("verses", "7")]),
            variant("Empty", vec![attr("chapters", "0")]),
        ]),
    };
    let data = BookEnumData::from_derive_input(&input).unwrap();
    let arms = data.generate();
    assert_eq!(
        arms.chapters_arms,
        vec![ChapterArm { variant: 0, chapters: 2 }, ChapterArm { variant: 3, chapters: 0 }]
    );
    assert_eq!(arms.verses_arms, vec![0, 2]);
    assert_eq!(data.generate_chapters_arms(), arms.chapters_arms);
    assert_eq!(data.generate_verses_arms(), arms.verses_arms);
}

#[test]
fn a_chapter_that_a_variant_does_not_have_is_named_in_the_message() {
    let book = alpha_and_beta();
    assert_eq!(
        book.variants[0].max_verses_in_chapter(4),
        Err("Chapter 4 is out of range for Alpha".to_string())
    );
    assert_eq!(
        book.variants[1].max_verses_in_chapter(0),
        Err("Chapter 0 is out of range for Beta".to_string())
    );
}

#[test]
fn a_long_table_has_all_its_chapters() {
    let verses = vec!["7"; 300].join(",");
    let long = BookVariantData::from_variant(&variant("Long", vec![attr("verses", &verses)]))
        .unwrap();
    assert_eq!(long.max_verse_count_by_chapter().len(), 300);
    assert_eq!(long.max_verses_in_chapter(1), Ok(7));
    assert_eq!(long.max_verses_in_chapter(44), Ok(7));
    assert_eq!(long.max_verses_in_chapter(45), Ok(7));
    assert_eq!(long.max_verses_in_chapter(255), Ok(7));
    assert!(long.max_verses_in_chapter(0).is_err());
    let verses = vec!["9"; 256].join(",");
    let full = BookVariantData::from_variant(&variant("Full", vec![attr("verses", &verses)]))
        .unwrap();
    assert_eq!(full.max_verses_in_chapter(1), Ok(9));
    assert_eq!(full.max_verses_in_chapter(255), Ok(9));
    assert_eq!(
        full.max_verses_in_chapter(0),
        Err("Chapter 0 is out of range for Full".to_string())
    );
}
