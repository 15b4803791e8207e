use text_session::namer::new_filename;
use text_session::namer::timestamp_name;
use text_session::scanner::lex_le;

#[test]
fn timestamp_name_formats_exactly() {
    assert_eq!(timestamp_name(2024, 1, 2, 3, 4, 5), b"2024-01-02_03-04-05.txt".to_vec());
    assert_eq!(timestamp_name(999, 12, 31, 23, 59, 59), b"0999-12-31_23-59-59.txt".to_vec());
    assert_eq!(timestamp_name(0, 1, 1, 0, 0, 0), b"0000-01-01_00-00-00.txt".to_vec());
}

#[test]
fn lexicographic_order_agrees_with_time_order() {
    let earlier = timestamp_name(2024, 1, 2, 3, 4, 5);
    let later_second = timestamp_name(2024, 1, 2, 3, 4, 6);
    let later_year = timestamp_name(2025, 1, 1, 0, 0, 0);
    assert!(lex_le(&earlier, &later_second));
    assert!(!lex_le(&later_second, &earlier));
    assert!(lex_le(&later_second, &later_year));
}

#[test]
fn new_filename_has_the_fixed_pattern() {
    // Runs against the real clock: the shape is all that is stable.
    let name = new_filename();
    assert_eq!(name.len(), 23);
    assert!(name.ends_with(b".txt"));
    assert_eq!(name[4], b'-');
    assert_eq!(name[7], b'-');
    assert_eq!(name[10], b'_');
    assert_eq!(name[13], b'-');
    assert_eq!(name[16], b'-');
    for i in [0, 1, 2, 3, 5, 6, 8, 9, 11, 12, 14, 15, 17, 18] {
        assert!(name[i].is_ascii_digit());
    }
}
