use text_session::Error;
use text_session::IoErrorKind;
use text_session::store::FileStore;
use text_session::store::resolve_save_path;

fn p(name: &str) -> Vec<u8> {
    name.as_bytes().to_vec()
}

#[test]
fn save_then_load_round_trips_exactly() {
    let mut st = FileStore::new();
    let used = st.save(Some(p("a.txt")), "hello".to_string(), p("fresh.txt"));
    assert_eq!(used, p("a.txt"));
    assert_eq!(st.load(&p("a.txt")).unwrap(), "hello");
}

#[test]
fn round_trip_keeps_empty_and_multiline_text() {
    let mut st = FileStore::new();
    st.save(Some(p("a.txt")), String::new(), p("fresh.txt"));
    assert_eq!(st.load(&p("a.txt")).unwrap(), "");
    let text = "line one\nline two\n\ntrailing\n";
    st.save(Some(p("a.txt")), text.to_string(), p("fresh.txt"));
    assert_eq!(st.load(&p("a.txt")).unwrap(), text);
    let unicode = "caf\u{e9} \u{1F4DD}\nsecond";
    st.save(Some(p("u.txt")), unicode.to_string(), p("fresh.txt"));
    assert_eq!(st.load(&p("u.txt")).unwrap(), unicode);
}

#[test]
fn saving_twice_is_idempotent() {
    let mut once = FileStore::new();
    once.save(Some(p("a.txt")), "text".to_string(), p("fresh.txt"));
    let mut twice = FileStore::new();
    let first = twice.save(Some(p("a.txt")), "text".to_string(), p("fresh.txt"));
    let second = twice.save(Some(p("a.txt")), "text".to_string(), p("fresh.txt"));
    assert_eq!(first, second, "both saves report the same used path");
    assert_eq!(once.load(&p("a.txt")).unwrap(), twice.load(&p("a.txt")).unwrap());
}

#[test]
fn save_overwrites_fully_and_touches_nothing_else() {
    let mut st = FileStore::new();
    st.save(Some(p("a.txt")), "a long first version".to_string(), p("fresh.txt"));
    st.save(Some(p("b.txt")), "other".to_string(), p("fresh.txt"));
    st.save(Some(p("a.txt")), "v2".to_string(), p("fresh.txt"));
    assert_eq!(st.load(&p("a.txt")).unwrap(), "v2");
    assert_eq!(st.load(&p("b.txt")).unwrap(), "other");
}

#[test]
fn save_without_path_uses_the_fresh_name() {
    let mut st = FileStore::new();
    let used = st.save(None, "text".to_string(), p("2024-01-02_03-04-05.txt"));
    assert_eq!(used, p("2024-01-02_03-04-05.txt"));
    assert_eq!(st.load(&used).unwrap(), "text");
}

#[test]
fn create_empty_truncates() {
    let mut st = FileStore::new();
    st.save(Some(p("a.txt")), "old".to_string(), p("fresh.txt"));
    let used = st.create_empty(p("a.txt"));
    assert_eq!(used, p("a.txt"));
    assert_eq!(st.load(&p("a.txt")).unwrap(), "");
}

#[test]
fn loading_a_missing_path_is_a_classified_not_found() {
    let st = FileStore::new();
    assert!(matches!(st.load(&p("a.txt")), Err(Error::IoError(IoErrorKind::NotFound))));
}

#[test]
fn resolve_keeps_a_given_path() {
    assert_eq!(resolve_save_path(Some(p("a.txt"))), p("a.txt"));
}
