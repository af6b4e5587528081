use scripture_ref::scripture_reference::{
    Book, Chapter, PassageError, ScriptureReferenceError, SelectionError, Translation, Verse,
    VerseNumber, VersePhrase, VerseReference, VerseReferenceError,
};

#[test]
fn verse_numbers_run_from_1_to_175() {
    assert_eq!(VerseNumber::try_from(1), Ok(VerseNumber(1)));
    assert_eq!(VerseNumber::try_from(175), Ok(VerseNumber(175)));
    for n in [0u16, 176, 177, 1000, u16::MAX] {
        assert_eq!(
            VerseNumber::try_from(n),
            Err("Verse number is invalid; must be positive and not be greater than 175")
        );
    }
}

#[test]
fn chapters_run_from_1_to_150() {
    assert_eq!(Chapter::try_from(1), Ok(Chapter(1)));
    assert_eq!(Chapter::try_from(150), Ok(Chapter(150)));
    for n in [0u16, 151, u16::MAX] {
        assert_eq!(
            Chapter::try_from(n),
            Err("Chapter out of range; must be positive and not greater than 150")
        );
    }
}

#[test]
fn phrases_are_the_letters_a_to_d() {
    assert_eq!(VersePhrase::try_from(b'a'), Ok(VersePhrase(0)));
    assert_eq!(VersePhrase::try_from(b'd'), Ok(VersePhrase(3)));
    assert_eq!(VersePhrase::try_from('c'), Ok(VersePhrase(2)));
    let invalid = Err("Verse phrase is not valid, must be a single letter from a to d");
    assert_eq!(VersePhrase::try_from(b'e'), invalid);
    assert_eq!(VersePhrase::try_from(b'`'), invalid);
    assert_eq!(VersePhrase::try_from('A'), invalid);
    assert_eq!(VersePhrase::try_from('\u{3c0}'), invalid);
    // a character is a phrase by what it is, not by the low bits of its code
    assert_eq!(VersePhrase::try_from('\u{161}'), invalid);
    assert_eq!(VersePhrase::try_from('\u{10064}'), invalid);
    assert_eq!(VersePhrase::try_from('\u{ff41}'), invalid);
    assert_eq!(VersePhrase::try_from('e'), invalid);
    assert_eq!(VersePhrase::try_from('`'), invalid);
    assert_eq!(VersePhrase::try_from('a'), Ok(VersePhrase(0)));
    assert_eq!(VersePhrase::try_from('b'), Ok(VersePhrase(1)));
    assert_eq!(VersePhrase::try_from('d'), Ok(VersePhrase(3)));
}

#[test]
fn verses_are_whole_or_partial() {
    assert!(Verse::whole(VerseNumber::try_from(1)).is_ok());
    assert!(Verse::whole(VerseNumber::try_from(0)).is_err());
    assert!(Verse::whole(VerseNumber::try_from(177)).is_err());
    assert!(Verse::partial(VerseNumber::try_from(1), VersePhrase::try_from('a')).is_ok());
    assert!(Verse::partial(VerseNumber::try_from(1), VersePhrase::try_from(b'a')).is_ok());
    assert!(Verse::partial(VerseNumber::try_from(1), VersePhrase::try_from('\u{3c0}')).is_err());
    assert!(Verse::partial(VerseNumber::try_from(1), VersePhrase::try_from('\u{161}')).is_err());
    assert_eq!(
        Verse::new(VerseNumber::try_from(1).ok().unwrap(), None),
        Verse { number: VerseNumber(1), phrase: None }
    );
    assert_eq!(
        Verse::partial(VerseNumber::try_from(7), VersePhrase::try_from('b')),
        Ok(Verse { number: VerseNumber(7), phrase: Some(VersePhrase(1)) })
    );
    assert_eq!(
        Verse::partial(VerseNumber::try_from(0), VersePhrase::try_from('z')),
        Err(VerseReferenceError(
            "Verse number is invalid; must be positive and not be greater than 175".to_string()
        ))
    );
    assert_eq!(
        Verse::partial(VerseNumber::try_from(1), VersePhrase::try_from('z')),
        Err(VerseReferenceError(
            "Verse phrase is not valid, must be a single letter from a to d".to_string()
        ))
    );
}

#[test]
fn references_take_the_first_error() {
    assert!(VerseReference::verse_unchecked(
        Book::try_from("Genesis"),
        Chapter::try_from(1),
        VerseNumber::try_from(1)
    )
    .is_ok());
    assert!(VerseReference::verse_unchecked(
        Book::try_from("4 John"),
        Chapter::try_from(1),
        VerseNumber::try_from(1)
    )
    .is_err());
    let r = VerseReference::verse_unchecked(
        Book::try_from("1 KINGS"),
        Chapter::try_from(22),
        VerseNumber::try_from(53),
    )
    .unwrap();
    assert_eq!(r.book, Book::FirstKings);
    assert_eq!(r.chapter, Chapter(22));
    assert_eq!(r.verse, Verse { number: VerseNumber(53), phrase: None });
    let e = VerseReference::verse_unchecked(
        Book::try_from("Exodus"),
        Chapter::try_from(0),
        VerseNumber::try_from(0),
    )
    .unwrap_err();
    assert_eq!(e, VerseReferenceError("Book is not valid: Exodus".to_string()));
    let e = VerseReference::verse_unchecked(
        Book::try_from("obadiah"),
        Chapter::try_from(0),
        VerseNumber::try_from(0),
    )
    .unwrap_err();
    assert_eq!(
        e,
        VerseReferenceError(
            "Chapter out of range; must be positive and not greater than 150".to_string()
        )
    );
    let r = VerseReference::partial_verse_unchecked(
        Book::try_from("Song of Songs"),
        Chapter::try_from(8),
        VerseNumber::try_from(14),
        VersePhrase::try_from('d'),
    )
    .unwrap();
    assert_eq!(r.book, Book::SongOfSongs);
    assert_eq!(r.verse, Verse { number: VerseNumber(14), phrase: Some(VersePhrase(3)) });
    let e = VerseReference::partial_verse_unchecked(
        Book::try_from("Matthew"),
        Chapter::try_from(1),
        VerseNumber::try_from(1),
        VersePhrase::try_from('e'),
    )
    .unwrap_err();
    assert_eq!(
        e,
        VerseReferenceError(
            "Verse phrase is not valid, must be a single letter from a to d".to_string()
        )
    );
}

#[test]
fn translations_are_named_whatever_the_case() {
    assert!(matches!(Translation::from("esv"), Translation::ESV));
    assert!(matches!(Translation::from("ESV"), Translation::ESV));
    assert!(matches!(Translation::from("Kjv"), Translation::KJV));
    assert!(matches!(Translation::from("\u{212a}JV"), Translation::KJV));
    assert!(matches!(Translation::from("NIV"), Translation::Other(name) if name == "NIV"));
    assert!(matches!(Translation::from(""), Translation::Other(name) if name.is_empty()));
    assert!(matches!(Translation::from_normalized("esv", "x"), Translation::ESV));
    assert!(matches!(Translation::from_normalized("ESV", "x"), Translation::Other(name) if name == "x"));
}

#[test]
fn errors_wrap_and_say_what_is_invalid() {
    assert_eq!(VerseReferenceError::from("no"), VerseReferenceError("no".to_string()));
    assert_eq!(
        VerseReferenceError::from("no".to_string()),
        VerseReferenceError("no".to_string())
    );
    let e = ScriptureReferenceError::from(VerseReferenceError("no".to_string()));
    assert_eq!(e, ScriptureReferenceError::InvalidVerse("no".to_string()));
    assert_eq!(e.to_string(), "Verse reference is invalid");
    assert_eq!(
        ScriptureReferenceError::InvalidPassage(PassageError::InvalidVerseRange("x")).to_string(),
        "Passage is invalid"
    );
    assert_eq!(
        ScriptureReferenceError::InvalidSelection(SelectionError::InvalidSelection(
            VerseReferenceError("x".to_string())
        ))
        .to_string(),
        "Selection is invalid"
    );
    assert_eq!(PassageError::InvalidVerseRange("x").to_string(), "Verse range is invalid");
    assert_eq!(
        SelectionError::InvalidSelection(VerseReferenceError("x".to_string())).to_string(),
        "Selection is invalid"
    );
}

#[test]
fn books_of_a_reference_are_named_whatever_the_case() {
    assert_eq!(Book::try_from("GENESIS"), Ok(Book::Genesis));
    assert_eq!(Book::try_from("1 Kings"), Ok(Book::FirstKings));
    assert_eq!(Book::try_from("song of songs"), Ok(Book::SongOfSongs));
    assert_eq!(Book::try_from("Obadiah"), Ok(Book::Obadiah));
    assert_eq!(Book::try_from("Matthew"), Ok(Book::Matthew));
    assert_eq!(Book::try_from("gen"), Err("Book is not valid: gen".to_string()));
    assert_eq!(Book::from_normalized("matthew", "?"), Ok(Book::Matthew));
    assert_eq!(Book::from_normalized("Matthew", "?"), Err("Book is not valid: ?".to_string()));
}
