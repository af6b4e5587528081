use scripture_ref::bvc::{Book, Chapter, ChapterNumber, VerseNumber, VersePartLabel};
use scripture_ref::scripture_ref_builder::{
    ScripturePassageRef, ScriptureRef, ScriptureSelectionRef, ScriptureVerseRef, SelectionPart,
};

fn verse_ref(book: Book, chapter: u8, verse: u8) -> ScriptureVerseRef {
    ScriptureVerseRef::builder()
        .book(book)
        .chapter(ChapterNumber::new(chapter).unwrap())
        .verse(VerseNumber::new(verse).unwrap())
        .build()
        .unwrap()
}

fn passage(start: ScriptureVerseRef, end: ScriptureVerseRef) -> ScripturePassageRef {
    ScripturePassageRef::builder().start_at(start).end_at(end).build().unwrap()
}

#[test]
fn a_verse_is_built_from_book_chapter_and_verse() {
    let built = ScriptureVerseRef::builder()
        .try_book(Book::try_from("Genesis"))
        .unwrap()
        .try_chapter(ChapterNumber::try_from(1u8))
        .unwrap()
        .try_verse(VerseNumber::try_from(31u8))
        .unwrap()
        .build()
        .unwrap();
    assert_eq!(built, verse_ref(Book::Genesis, 1, 31));
    assert_eq!(built.to_string(), "Genesis 1:31");
    assert_eq!(built.verse_part, None);
    assert_eq!(
        ScriptureVerseRef::new(
            Book::Exodus,
            ChapterNumber::new(2).unwrap(),
            VerseNumber::new(24).unwrap(),
            None
        ),
        Ok(verse_ref(Book::Exodus, 2, 24))
    );
    assert!(built.same(&verse_ref(Book::Genesis, 1, 31)));
    assert!(!built.same(&verse_ref(Book::Genesis, 1, 30)));
}

#[test]
fn a_failed_piece_stops_the_builder() {
    assert_eq!(
        ScriptureVerseRef::builder().try_book(Book::try_from("Acts")).unwrap_err(),
        "not a valid book: Acts"
    );
    assert_eq!(
        ScriptureVerseRef::builder().try_chapter(ChapterNumber::try_from(0u8)).unwrap_err(),
        "chapter 0 is out of range; must be positive and not greater than 150"
    );
    assert_eq!(
        ScriptureVerseRef::builder().try_verse(VerseNumber::try_from("x")).unwrap_err(),
        "not a valid chapter number: x; error: InvalidDigit"
    );
}

#[test]
fn a_verse_needs_all_three_pieces_and_a_place_in_its_book() {
    let one = ChapterNumber::new(1).unwrap();
    let first = VerseNumber::new(1).unwrap();
    assert_eq!(ScriptureVerseRef::builder().build().unwrap_err(), "book is required");
    assert_eq!(
        ScriptureVerseRef::builder().chapter(one).verse(first).build().unwrap_err(),
        "book is required"
    );
    assert_eq!(
        ScriptureVerseRef::builder().book(Book::Genesis).verse(first).build().unwrap_err(),
        "chapter is required"
    );
    assert_eq!(
        ScriptureVerseRef::builder().book(Book::Genesis).chapter(one).build().unwrap_err(),
        "verse is required"
    );
    assert_eq!(
        ScriptureVerseRef::builder()
            .book(Book::Obadiah)
            .chapter(ChapterNumber::new(2).unwrap())
            .verse(first)
            .build()
            .unwrap_err(),
        "Obadiah has 1 chapters, not 2"
    );
    assert_eq!(
        ScriptureVerseRef::builder()
            .book(Book::Obadiah)
            .chapter(one)
            .verse(VerseNumber::new(22).unwrap())
            .build()
            .unwrap_err(),
        "Obadiah 1 has at most 21 verses, not 22"
    );
}

#[test]
fn a_part_is_printed_behind_its_verse() {
    let mut with_part = verse_ref(Book::Matthew, 5, 3);
    with_part.verse_part = Some(VersePartLabel::new(b'b').unwrap());
    assert_eq!(with_part.to_string(), "Matthew 5:366");
    assert!(!with_part.same(&verse_ref(Book::Matthew, 5, 3)));
}

#[test]
fn a_passage_needs_both_ends() {
    let v = verse_ref(Book::Genesis, 1, 1);
    assert_eq!(
        ScripturePassageRef::builder().build().unwrap_err(),
        "starting verse ref is required"
    );
    assert_eq!(
        ScripturePassageRef::builder().end_at(v).build().unwrap_err(),
        "starting verse ref is required"
    );
    assert_eq!(
        ScripturePassageRef::builder().start_at(v).build().unwrap_err(),
        "ending verse ref is required"
    );
    let p = ScripturePassageRef::new(v, verse_ref(Book::Genesis, 1, 2)).unwrap();
    assert_eq!(p.start, v);
    assert_eq!(p.end, verse_ref(Book::Genesis, 1, 2));
}

#[test]
fn a_passage_is_printed_by_how_far_it_reaches() {
    let start = verse_ref(Book::Genesis, 1, 1);
    assert_eq!(passage(start, start).to_string(), "Genesis 1:1");
    assert_eq!(passage(start, verse_ref(Book::Genesis, 1, 31)).to_string(), "Genesis 1");
    assert_eq!(
        passage(start, verse_ref(Book::Genesis, 2, 3)).to_string(),
        "Genesis Genesis 1:1-3"
    );
    assert_eq!(
        passage(start, verse_ref(Book::Exodus, 2, 3)).to_string(),
        "Genesis 1:1-Exodus 2:3"
    );
}

#[test]
fn a_chapter_is_the_passage_from_its_first_verse_to_its_last() {
    for book in [Book::Genesis, Book::Psalms, Book::Obadiah, Book::Revelation] {
        for number in 1..=book.chapter_count() {
            let chapter = Chapter::new(book, ChapterNumber::new(number).unwrap()).unwrap();
            let p = ScripturePassageRef::from(chapter);
            assert_eq!(p.start, verse_ref(book, number, 1));
            assert_eq!(p.end, verse_ref(book, number, chapter.max_verse_count().unwrap()));
            let text = if chapter.max_verse_count().unwrap() == 1 {
                format!("{} {}:1", book.to_string(), number)
            } else {
                format!("{} {}", book.to_string(), number)
            };
            assert_eq!(p.to_string(), text);
        }
    }
}

#[test]
fn a_selection_keeps_its_order_and_prints_no_verse_twice_in_a_row() {
    let a = verse_ref(Book::Genesis, 1, 1);
    let b = verse_ref(Book::Genesis, 1, 31);
    let p = passage(a, a);
    let selection = ScriptureSelectionRef::builder()
        .add_verse(a)
        .add_verse(a)
        .add_verse(b)
        .add_verse(a)
        .add_passage(p)
        .add_passage(p)
        .add_verse(a)
        .add_verse(a)
        .add_verse(a)
        .build()
        .unwrap();
    assert_eq!(
        selection.to_string(),
        "Genesis 1:1; Genesis 1:31; Genesis 1:1; Genesis 1:1; Genesis 1:1; Genesis 1:1"
    );
    let parts = selection.parts();
    assert_eq!(parts.len(), 9);
    assert!(parts[0].same_verse_as(&parts[1]));
    assert!(!parts[4].same_verse_as(&parts[5]));
    assert!(!parts[3].same_verse_as(&parts[4]));
    assert_eq!(parts[4].to_string(), "Genesis 1:1");
    assert!(matches!(parts[6], SelectionPart::Verse(v) if v == a));
    assert_eq!(ScriptureSelectionRef::builder().build().unwrap().to_string(), "");
    assert_eq!(ScriptureSelectionRef::new(vec![]).unwrap().to_string(), "");
    assert_eq!(
        ScriptureSelectionRef::new(vec![SelectionPart::Verse(b)]).unwrap().to_string(),
        "Genesis 1:31"
    );
}

#[test]
fn the_selection_of_the_first_chapter_is_printed() {
    let verse_ref_1 = verse_ref(Book::Genesis, 1, 1);
    let other = verse_ref(Book::Genesis, 1, 31);
    let one = ScriptureVerseRef::builder()
        .book(Book::Genesis)
        .chapter(ChapterNumber::default())
        .verse(VerseNumber::default())
        .build()
        .unwrap();
    let passage_ref = passage(one, one);
    let selection = ScriptureSelectionRef::builder()
        .add_verse(verse_ref_1)
        .add_verse(other)
        .add_passage(passage_ref)
        .build()
        .unwrap();
    assert_eq!(selection.to_string(), "Genesis 1:1; Genesis 1:31; Genesis 1:1");
    assert_eq!(
        ScriptureRef::from(selection).to_string(),
        "Genesis 1:1; Genesis 1:31; Genesis 1:1"
    );
    assert_eq!(ScriptureRef::from(verse_ref(Book::Exodus, 2, 24)).to_string(), "Exodus 2:24");
    assert_eq!(ScriptureRef::from(passage_ref).to_string(), "Genesis 1:1");
}
