use foo_controller::text::contains;

#[test]
fn finds_a_word_at_start_middle_and_end() {
    assert!(contains("bad thing", "bad"));
    assert!(contains("a bad thing", "bad"));
    assert!(contains("too bad", "bad"));
}

#[test]
fn empty_needle_is_in_every_text() {
    assert!(contains("", ""));
    assert!(contains("abc", ""));
}

#[test]
fn needle_longer_than_text_is_not_found() {
    assert!(!contains("ba", "bad"));
    assert!(!contains("", "b"));
}

#[test]
fn whole_text_is_found_in_itself() {
    assert!(contains("bad", "bad"));
}

#[test]
fn overlapping_starts_are_tried() {
    assert!(contains("aab", "ab"));
    assert!(contains("bbad", "bad"));
    assert!(!contains("abab", "bb"));
}

#[test]
fn search_is_by_character() {
    assert!(contains("s\u{e9}rie bad", "bad"));
    assert!(contains("na\u{ef}ve", "\u{ef}v"));
    assert!(!contains("\u{e9}", "\u{e8}"));
}

#[test]
fn agrees_with_the_standard_search() {
    let texts = ["", "b", "bad", "abad", "bbaadd", "ba d", "xbadx", "dab bad"];
    let words = ["", "b", "ad", "bad", "badx", "d b"];
    for text in texts {
        for word in words {
            assert_eq!(contains(text, word), text.contains(word));
        }
    }
}
