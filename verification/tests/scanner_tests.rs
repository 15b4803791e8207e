use text_session::Error;
use text_session::scanner::Direction;
use text_session::scanner::DirectoryListing;
use text_session::scanner::bytes_eq;
use text_session::scanner::clone_bytes;
use text_session::scanner::is_text_file_name;
use text_session::scanner::lex_le;

fn listing(names: &[&str]) -> DirectoryListing {
    DirectoryListing::from_names(names.iter().map(|n| n.as_bytes().to_vec()).collect())
}

fn p(name: &str) -> Vec<u8> {
    name.as_bytes().to_vec()
}

#[test]
fn filters_to_text_files_and_sorts() {
    let l = listing(&["notes.md", "b.txt", "a.txt", "image.png", "c.txt"]);
    assert_eq!(l.len(), 3);
    assert_eq!(l.entry(0), &p("a.txt"));
    assert_eq!(l.entry(1), &p("b.txt"));
    assert_eq!(l.entry(2), &p("c.txt"));
}

#[test]
fn extension_must_follow_a_stem() {
    assert!(is_text_file_name(&p("a.txt")));
    assert!(is_text_file_name(&p("2024-01-02_03-04-05.txt")));
    assert!(!is_text_file_name(&p(".txt")));
    assert!(!is_text_file_name(&p("txt")));
    assert!(!is_text_file_name(&p("a.md")));
    assert!(!is_text_file_name(&p("")));
}

#[test]
fn lexicographic_comparison() {
    assert!(lex_le(&p("a.txt"), &p("b.txt")));
    assert!(!lex_le(&p("b.txt"), &p("a.txt")));
    assert!(lex_le(&p("a.txt"), &p("a.txt")));
    assert!(lex_le(&p("a"), &p("a.txt")));
    assert!(!lex_le(&p("a.txt"), &p("a")));
}

#[test]
fn byte_string_helpers() {
    let a = p("a.txt");
    assert!(bytes_eq(&a, &clone_bytes(&a)));
    assert!(!bytes_eq(&a, &p("b.txt")));
}

#[test]
fn empty_listing_fails_with_not_found() {
    let l = listing(&[]);
    assert_eq!(l.len(), 0);
    let r = l.find_adjacent(&None, Direction::Next);
    assert!(matches!(r, Err(Error::NotFound)));
    let r = l.find_adjacent(&Some(p("a.txt")), Direction::Previous);
    assert!(matches!(r, Err(Error::NotFound)));
}

#[test]
fn no_current_file_lands_on_first() {
    let l = listing(&["b.txt", "a.txt", "c.txt"]);
    assert_eq!(l.find_adjacent(&None, Direction::Previous).unwrap(), p("a.txt"));
    assert_eq!(l.find_adjacent(&None, Direction::Next).unwrap(), p("a.txt"));
}

#[test]
fn unlisted_current_file_lands_on_first() {
    let l = listing(&["a.txt", "b.txt", "c.txt"]);
    let gone = Some(p("deleted.txt"));
    assert_eq!(l.find_adjacent(&gone, Direction::Previous).unwrap(), p("a.txt"));
    assert_eq!(l.find_adjacent(&gone, Direction::Next).unwrap(), p("a.txt"));
}

#[test]
fn wraparound_at_either_end() {
    let l = listing(&["a.txt", "b.txt", "c.txt"]);
    assert_eq!(l.find_adjacent(&Some(p("a.txt")), Direction::Previous).unwrap(), p("c.txt"));
    assert_eq!(l.find_adjacent(&Some(p("c.txt")), Direction::Next).unwrap(), p("a.txt"));
    assert_eq!(l.find_adjacent(&Some(p("b.txt")), Direction::Previous).unwrap(), p("a.txt"));
    assert_eq!(l.find_adjacent(&Some(p("b.txt")), Direction::Next).unwrap(), p("c.txt"));
}

#[test]
fn previous_then_next_returns_to_start() {
    let l = listing(&["a.txt", "b.txt", "c.txt", "d.txt"]);
    for i in 0..l.len() {
        let start = clone_bytes(l.entry(i));
        let there = l.find_adjacent(&Some(clone_bytes(&start)), Direction::Previous).unwrap();
        let back = l.find_adjacent(&Some(there), Direction::Next).unwrap();
        assert_eq!(back, start);
        let there = l.find_adjacent(&Some(clone_bytes(&start)), Direction::Next).unwrap();
        let back = l.find_adjacent(&Some(there), Direction::Previous).unwrap();
        assert_eq!(back, start);
    }
}

#[test]
fn sole_file_has_no_adjacent() {
    let l = listing(&["a.txt"]);
    let cur = Some(p("a.txt"));
    assert!(matches!(l.find_adjacent(&cur, Direction::Previous), Err(Error::NotFound)));
    assert!(matches!(l.find_adjacent(&cur, Direction::Next), Err(Error::NotFound)));
}

#[test]
fn duplicate_names_are_kept() {
    let l = listing(&["b.txt", "a.txt", "b.txt"]);
    assert_eq!(l.len(), 3);
    assert_eq!(l.entry(0), &p("a.txt"));
    assert_eq!(l.entry(1), &p("b.txt"));
    assert_eq!(l.entry(2), &p("b.txt"));
}
