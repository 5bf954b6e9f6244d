use learn::buffer::TextBuffer;
use learn::render::{
    bool_to_text, i8_text, render_i8_list, render_list, render_record, render_str_list, u8_text,
};

#[test]
fn integer_texts() {
    assert_eq!(i8_text(42), "42");
    assert_eq!(i8_text(0), "0");
    assert_eq!(i8_text(-7), "-7");
    assert_eq!(i8_text(-128), "-128");
    assert_eq!(i8_text(127), "127");
    assert_eq!(u8_text(0), "0");
    assert_eq!(u8_text(25), "25");
    assert_eq!(u8_text(255), "255");
}

#[test]
fn boolean_texts() {
    assert_eq!(bool_to_text(true), "true");
    assert_eq!(bool_to_text(false), "false");
}

#[test]
fn integer_list_matches_debug_form() {
    let cases: Vec<Vec<i8>> = vec![
        vec![],
        vec![0],
        vec![1, 2, 3, 4, 5],
        vec![5, 4, 3, 2, 1],
        vec![-128, 0, 127, 5, 5],
        vec![10, -10, 100],
    ];
    for v in cases {
        assert_eq!(render_i8_list(&v), format!("{:?}", v));
    }
}

#[test]
fn integer_list_keeps_order_and_duplicates() {
    assert_eq!(render_i8_list(&[3, 1, 3, 1]), "[3, 1, 3, 1]");
    assert_ne!(render_i8_list(&[1, 2]), render_i8_list(&[2, 1]));
    assert_ne!(render_i8_list(&[1, 1]), render_i8_list(&[1]));
    assert_ne!(render_i8_list(&[1, 2]), render_i8_list(&[12]));
}

#[test]
fn text_list_is_quoted() {
    assert_eq!(render_str_list(&["Apple", "Banana"]), "[\"Apple\", \"Banana\"]");
    assert_eq!(render_str_list(&[]), "[]");
    let tricky = ["a\"b", "back\\slash", "line\nbreak", ""];
    assert_eq!(render_str_list(&tricky), format!("{:?}", tricky));
}

#[test]
fn list_of_rendered_parts() {
    let parts = vec!["x".to_string(), "yy".to_string(), "z".to_string()];
    assert_eq!(render_list(&parts), "[x, yy, z]");
    assert_eq!(render_list(&Vec::new()), "[]");
}

#[test]
fn record_matches_debug_form() {
    assert_eq!(render_record("Shashank", 25, true), "(\"Shashank\", 25, true)");
    let record: (String, i8, bool) = ("O\"Neil".to_string(), -3, false);
    assert_eq!(render_record(&record.0, record.1, record.2), format!("{:?}", record));
}

#[test]
fn buffer_append_and_clear() {
    let mut b = TextBuffer::new();
    assert_eq!(b.as_str(), "");
    b.clear();
    assert_eq!(b.as_str(), "");
    b.push_str("not good, meh!");
    assert_eq!(b.as_str(), "not good, meh!");
    assert_eq!(b.prefix(4), "not ");
    assert_eq!(b.prefix(0), "");
    assert_eq!(b.prefix(14), "not good, meh!");
    b.clear();
    b.push_str("again");
    b.push_str(" and again");
    assert_eq!(b.as_str(), "again and again");
}

#[test]
fn buffer_prefix_counts_bytes() {
    let mut b = TextBuffer::new();
    b.push_str("héllo");
    assert_eq!(b.prefix(3), "hé");
    assert_eq!(b.prefix(1), "h");
}
