use scripture_ref::bvc::{
    pack_fields, Book, Chapter, ChapterNumber, HasBook, ScripturePosition, Spanned, Verse,
    VerseNumber, VersePart, VersePartLabel,
};
use scripture_ref::lexer::book_token::BookToken;

const BOOKS: [Book; 10] = [
    Book::Genesis,
    Book::Exodus,
    Book::FirstKings,
    Book::Psalms,
    Book::SongOfSongs,
    Book::Obadiah,
    Book::Matthew,
    Book::John,
    Book::ThirdJohn,
    Book::Revelation,
];

#[test]
fn chapter_number_valid_range() {
    for n in 1u8..=150u8 {
        let result = ChapterNumber::new(n);
        assert!(result.is_ok());
        assert_eq!(result.unwrap().get(), n);
    }
}

#[test]
fn chapter_number_invalid_below() {
    for n in 0u8..1u8 {
        assert!(ChapterNumber::new(n).is_err());
    }
}

#[test]
fn chapter_number_invalid_above() {
    for n in 151u8..=255u8 {
        assert!(ChapterNumber::new(n).is_err());
    }
}

#[test]
fn verse_number_valid_range() {
    for n in 1u8..=176u8 {
        let result = VerseNumber::new(n);
        assert!(result.is_ok());
        assert_eq!(result.unwrap().get(), n);
    }
}

#[test]
fn verse_number_invalid_below() {
    for n in 0u8..1u8 {
        assert!(VerseNumber::new(n).is_err());
    }
}

#[test]
fn verse_number_invalid_above() {
    for n in 177u8..=255u8 {
        assert!(VerseNumber::new(n).is_err());
    }
}

#[test]
fn numbers_out_of_range_say_so() {
    assert_eq!(
        ChapterNumber::new(0).unwrap_err(),
        "chapter 0 is out of range; must be positive and not greater than 150"
    );
    assert_eq!(
        ChapterNumber::try_from(151u8).unwrap_err(),
        "chapter 151 is out of range; must be positive and not greater than 150"
    );
    assert_eq!(
        VerseNumber::new(177).unwrap_err(),
        "verse 177 out of range; must be positive and not greater than 176"
    );
    assert_eq!(
        VerseNumber::try_from(0u8).unwrap_err(),
        "verse 0 out of range; must be positive and not greater than 176"
    );
    assert_eq!(
        VersePartLabel::new(b'e').unwrap_err(),
        "verse phrase 101 is not valid, must be a single letter from a to d"
    );
    assert_eq!(
        VersePartLabel::new(b'A').unwrap_err(),
        "verse phrase 65 is not valid, must be a single letter from a to d"
    );
}

#[test]
fn numbers_are_read_from_text() {
    assert_eq!(ChapterNumber::try_from("150").unwrap().get(), 150);
    assert_eq!(ChapterNumber::try_from("+3").unwrap().get(), 3);
    assert_eq!(VerseNumber::try_from("176").unwrap().get(), 176);
    assert_eq!(
        ChapterNumber::try_from("151").unwrap_err(),
        "chapter 151 is out of range; must be positive and not greater than 150"
    );
    assert_eq!(
        ChapterNumber::try_from("").unwrap_err(),
        "not a valid chapter number: ; error: Empty"
    );
    assert_eq!(
        ChapterNumber::try_from(" 1").unwrap_err(),
        "not a valid chapter number:  1; error: InvalidDigit"
    );
    assert_eq!(
        ChapterNumber::try_from("256").unwrap_err(),
        "not a valid chapter number: 256; error: PosOverflow"
    );
    assert_eq!(
        VerseNumber::try_from("26x").unwrap_err(),
        "not a valid chapter number: 26x; error: InvalidDigit"
    );
    assert_eq!(
        VerseNumber::try_from("999x").unwrap_err(),
        "not a valid chapter number: 999x; error: PosOverflow"
    );
    assert_eq!(
        VerseNumber::try_from("0").unwrap_err(),
        "verse 0 out of range; must be positive and not greater than 176"
    );
    for text in ["", "+", "-", "-1", "26x", "999x", "256", "1 "] {
        let kind = format!("{:?}", text.parse::<u8>().unwrap_err().kind());
        assert_eq!(
            ChapterNumber::try_from(text).unwrap_err(),
            format!("not a valid chapter number: {}; error: {}", text, kind)
        );
    }
}

#[test]
fn defaults_and_labels() {
    assert_eq!(ChapterNumber::default().get(), 1);
    assert_eq!(VerseNumber::default().get(), 1);
    assert_eq!(VersePartLabel::max().get(), b'd');
    for code in b'a'..=b'd' {
        assert_eq!(VersePartLabel::new(code).unwrap().get(), code);
    }
    assert!(VersePartLabel::new(b'`').is_err());
    assert_eq!(VersePartLabel::new(b'a').unwrap().to_string(), "65");
    assert_eq!(VersePartLabel::new(b'd').unwrap().to_string(), "68");
    assert_eq!(ChapterNumber::new(150).unwrap().to_string(), "150");
    assert_eq!(VerseNumber::new(9).unwrap().to_string(), "9");
}

#[test]
fn the_table_of_each_book_has_one_entry_for_each_chapter() {
    let chapters = [50, 40, 22, 150, 8, 1, 28, 21, 1, 22];
    let ids = [1, 2, 11, 19, 22, 31, 40, 43, 64, 66];
    for (i, book) in BOOKS.iter().enumerate() {
        assert_eq!(book.chapter_count(), chapters[i]);
        assert_eq!(book.max_verse_count_by_chapter().len(), chapters[i] as usize);
        assert_eq!(book.id(), ids[i]);
        assert_eq!(book.book(), *book);
        for chapter in 1..=book.chapter_count() {
            let verses = book.max_verses_in_chapter(chapter).unwrap();
            assert_eq!(verses, book.max_verse_count_by_chapter()[chapter as usize - 1]);
            assert!(verses >= 1 && verses <= 176);
        }
    }
    assert_eq!(Book::Genesis.max_verses_in_chapter(1), Ok(31));
    assert_eq!(Book::Genesis.max_verses_in_chapter(50), Ok(26));
    assert_eq!(Book::Psalms.max_verses_in_chapter(119), Ok(176));
    assert_eq!(Book::Psalms.max_verses_in_chapter(117), Ok(2));
    assert_eq!(Book::ThirdJohn.max_verses_in_chapter(1), Ok(15));
    assert_eq!(Book::Revelation.max_verses_in_chapter(22), Ok(21));
}

#[test]
fn a_chapter_that_a_book_does_not_have_is_an_error() {
    assert_eq!(
        Book::Genesis.max_verses_in_chapter(0),
        Err("Chapter 0 is out of range for Genesis".to_string())
    );
    assert_eq!(
        Book::FirstKings.max_verses_in_chapter(23),
        Err("Chapter 23 is out of range for FirstKings".to_string())
    );
    assert_eq!(
        Book::Obadiah.max_verses_in_chapter(2),
        Err("Chapter 2 is out of range for Obadiah".to_string())
    );
    assert!(Book::Psalms.max_verses_in_chapter(151).is_err());
    assert!(Book::Psalms.max_verses_in_chapter(255).is_err());
}

#[test]
fn small_books_count_their_verses() {
    assert_eq!(Book::Obadiah.verse_count(), 21);
    assert_eq!(Book::ThirdJohn.verse_count(), 15);
    assert_eq!(Book::SongOfSongs.verse_count(), 129);
}

#[test]
fn chapters_are_held_to_their_book() {
    let chapter = Chapter::new(Book::Genesis, ChapterNumber::new(50).unwrap()).unwrap();
    assert_eq!(chapter.book(), Book::Genesis);
    assert_eq!(chapter.number().get(), 50);
    assert_eq!(chapter.max_verse_count(), Ok(26));
    assert_eq!(chapter.to_string(), "Genesis 50");
    assert_eq!(
        Chapter::new(Book::Genesis, ChapterNumber::new(51).unwrap()).unwrap_err(),
        "Genesis has 50 chapters, not 51"
    );
    assert_eq!(
        Chapter::new(Book::FirstKings, ChapterNumber::new(150).unwrap()).unwrap_err(),
        "1 Kings has 22 chapters, not 150"
    );
    assert!(Chapter::new(Book::Psalms, ChapterNumber::new(150).unwrap()).is_ok());
}

#[test]
fn verses_are_held_to_their_chapter() {
    for book in BOOKS {
        for chapter in 1..=book.chapter_count() {
            let number = ChapterNumber::new(chapter).unwrap();
            let n = book.max_verses_in_chapter(chapter).unwrap();
            assert!(VerseNumber::new(0).is_err());
            for verse in 1..=n {
                let v = Verse::new(book, number, VerseNumber::new(verse).unwrap()).unwrap();
                assert_eq!(v.number().get(), verse);
                assert_eq!(v.chapter().number().get(), chapter);
                assert_eq!(v.book(), book);
            }
            match VerseNumber::new(n + 1) {
                Ok(next) => assert!(Verse::new(book, number, next).is_err()),
                Err(_) => assert_eq!(n, 176),
            }
        }
    }
    let one = ChapterNumber::new(1).unwrap();
    assert_eq!(
        Verse::new(Book::Genesis, one, VerseNumber::new(32).unwrap()).unwrap_err(),
        "Genesis 1 has at most 31 verses, not 32"
    );
    assert_eq!(
        Verse::new(Book::Obadiah, ChapterNumber::new(2).unwrap(), VerseNumber::default())
            .unwrap_err(),
        "Obadiah has 1 chapters, not 2"
    );
    let verse = Verse::new(Book::FirstKings, ChapterNumber::new(2).unwrap(), VerseNumber::new(24).unwrap())
        .unwrap();
    assert_eq!(verse.to_string(), "1 Kings 2:24");
    let part = VersePart::new(verse, VersePartLabel::new(b'b').unwrap());
    assert_eq!(part.verse(), verse);
    assert_eq!(part.part().get(), b'b');
    assert_eq!(part.book(), Book::FirstKings);
}

#[test]
fn books_are_printed_by_name() {
    let names = [
        "Genesis",
        "Exodus",
        "1 Kings",
        "Psalms",
        "Song of Songs",
        "Obadiah",
        "Matthew",
        "John",
        "3 John",
        "Revelation",
    ];
    for (i, book) in BOOKS.iter().enumerate() {
        assert_eq!(book.to_string(), names[i]);
        assert_eq!(book.name(), names[i]);
        assert_eq!(book.variant_name(), format!("{:?}", book));
        assert_eq!(Book::try_from(names[i]), Ok(*book));
    }
}

#[test]
fn books_are_named_whatever_the_case() {
    assert_eq!(Book::try_from("Genesis"), Ok(Book::Genesis));
    assert_eq!(Book::try_from("GENESIS"), Ok(Book::Genesis));
    assert_eq!(Book::try_from("gEn"), Ok(Book::Genesis));
    assert_eq!(Book::try_from("Gn"), Ok(Book::Genesis));
    assert_eq!(Book::try_from("1 KINGS"), Ok(Book::FirstKings));
    assert_eq!(Book::try_from("1 \u{212a}ings"), Ok(Book::FirstKings));
    assert_eq!(Book::try_from("Song of Solomon"), Ok(Book::SongOfSongs));
    assert_eq!(Book::try_from("song of songs"), Ok(Book::SongOfSongs));
    assert_eq!(Book::try_from("Obadiah"), Ok(Book::Obadiah));
    assert_eq!(Book::try_from("MATTHEW"), Ok(Book::Matthew));
    assert_eq!(Book::try_from("Acts"), Err("not a valid book: Acts".to_string()));
    assert_eq!(Book::try_from(" genesis"), Err("not a valid book:  genesis".to_string()));
    assert_eq!(Book::try_from(""), Err("not a valid book: ".to_string()));
    assert_eq!(Book::from_normalized("genesis", "x"), Ok(Book::Genesis));
    assert_eq!(Book::from_normalized("Genesis", "x"), Err("not a valid book: x".to_string()));
}

#[test]
fn a_literal_and_its_number_name_a_book() {
    assert_eq!(Book::try_from((None, &BookToken::Genesis)), Ok(Book::Genesis));
    assert_eq!(Book::try_from((None, &BookToken::Exodus)), Ok(Book::Exodus));
    assert_eq!(Book::try_from((Some(1), &BookToken::Kings)), Ok(Book::FirstKings));
    assert_eq!(Book::try_from((None, &BookToken::Psalms)), Ok(Book::Psalms));
    assert_eq!(Book::try_from((None, &BookToken::Obadiah)), Ok(Book::Obadiah));
    assert_eq!(Book::try_from((None, &BookToken::Matthew)), Ok(Book::Matthew));
    assert_eq!(Book::try_from((None, &BookToken::John)), Ok(Book::John));
    assert_eq!(Book::try_from((Some(3), &BookToken::John)), Ok(Book::ThirdJohn));
    assert_eq!(Book::try_from((None, &BookToken::Revelation)), Ok(Book::Revelation));
    assert_eq!(
        Book::try_from((Some(2), &BookToken::Kings)),
        Err("not a valid book: 2 Kings".to_string())
    );
    assert_eq!(
        Book::try_from((None, &BookToken::Kings)),
        Err("not a valid book: Kings".to_string())
    );
    assert_eq!(
        Book::try_from((Some(1), &BookToken::John)),
        Err("not a valid book: 1 John".to_string())
    );
    for number in 0..=255u8 {
        for token in [
            BookToken::Genesis,
            BookToken::Exodus,
            BookToken::Kings,
            BookToken::Psalms,
            BookToken::Obadiah,
            BookToken::Matthew,
            BookToken::John,
            BookToken::Revelation,
        ] {
            let name = format!("{} {}", number, token.as_str());
            assert_eq!(Book::try_from((Some(number), &token)).ok(), Book::try_from(name.as_str()).ok());
            assert_eq!(Book::try_from((None, &token)).ok(), Book::try_from(token.as_str()).ok());
        }
    }
}

#[test]
fn the_testaments_are_listed_in_order() {
    assert_eq!(
        Book::old_testament(),
        &[Book::Genesis, Book::Exodus, Book::FirstKings, Book::SongOfSongs, Book::Obadiah]
    );
    assert_eq!(Book::new_testament(), &[Book::Matthew]);
    let mut both = Book::old_testament().to_vec();
    both.extend_from_slice(Book::new_testament());
    assert_eq!(Book::bible(), both.as_slice());
}

#[test]
fn positions_pack_four_bytes() {
    assert_eq!(pack_fields(0, 0, 0, 0), 0);
    assert_eq!(pack_fields(1, 2, 3, 4), 0x0102_0304);
    assert_eq!(pack_fields(255, 255, 255, 255), u32::MAX);
    assert_eq!(pack_fields(66, 22, 21, b'd'), 0x4216_1564);
    let position = ScripturePosition::new(
        Book::Exodus,
        ChapterNumber::new(2).unwrap(),
        VerseNumber::new(24).unwrap(),
        Some(VersePartLabel::new(b'a').unwrap()),
    );
    assert_eq!(position.get(), 0x0202_1861);
    assert_eq!(position.to_string(), "33691745");
    let position = ScripturePosition::new(
        Book::Revelation,
        ChapterNumber::new(22).unwrap(),
        VerseNumber::new(21).unwrap(),
        None,
    );
    assert_eq!(position.get(), 0x4216_1500);
    assert_eq!(position.to_string(), "1108743424");
}

#[test]
fn books_chapters_and_verses_begin_and_end() {
    assert_eq!(Book::Genesis.start().unwrap().get(), 0x0101_0100);
    assert_eq!(Book::Genesis.end().unwrap().get(), 0x0132_1a64);
    assert_eq!(Book::Psalms.end().unwrap().get(), 0x1396_0664);
    let chapter = Chapter::new(Book::Genesis, ChapterNumber::new(50).unwrap()).unwrap();
    assert_eq!(chapter.start().unwrap().get(), 0x0132_0100);
    assert_eq!(chapter.end().unwrap().get(), 0x0132_1a64);
    let verse =
        Verse::new(Book::Genesis, ChapterNumber::new(3).unwrap(), VerseNumber::new(3).unwrap())
            .unwrap();
    assert_eq!(verse.start().unwrap().get(), 0x0103_0300);
    assert_eq!(verse.end().unwrap().get(), 0x0103_0364);
    for book in BOOKS {
        assert!(book.start().unwrap().get() < book.end().unwrap().get());
    }
}
