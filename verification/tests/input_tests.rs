use matrix_editor::input::{cell_value, sanitize_text};

fn read(raw: &str) -> f64 {
    cell_value(sanitize_text(raw).parse::<f64>().ok(), 0.0)
}

#[test]
fn plain_text_is_kept() {
    assert_eq!(sanitize_text("3.5"), "3.5");
    assert_eq!(sanitize_text("abc"), "abc");
    assert_eq!(sanitize_text("-5"), "-5");
    assert_eq!(sanitize_text("+5"), "+5");
    assert_eq!(sanitize_text(""), "");
}

#[test]
fn trailing_minus_puts_a_minus_in_front() {
    assert_eq!(sanitize_text("5-"), "-5");
    assert_eq!(sanitize_text("12.75-"), "-12.75");
    assert_eq!(sanitize_text("+5-"), "-+5");
}

#[test]
fn trailing_minus_removes_a_leading_minus() {
    assert_eq!(sanitize_text("-5-"), "5");
    assert_eq!(sanitize_text("--"), "");
    assert_eq!(sanitize_text("--5-"), "-5");
}

#[test]
fn lone_minus_becomes_empty() {
    assert_eq!(sanitize_text("-"), "");
}

#[test]
fn trailing_plus_is_dropped() {
    assert_eq!(sanitize_text("5+"), "5");
    assert_eq!(sanitize_text("-5+"), "-5");
    assert_eq!(sanitize_text("+"), "");
    assert_eq!(sanitize_text("5++"), "5+");
}

#[test]
fn only_the_last_character_counts() {
    assert_eq!(sanitize_text("5-3"), "5-3");
    assert_eq!(sanitize_text("5+3"), "5+3");
    assert_eq!(sanitize_text("1e-"), "-1e");
}

#[test]
fn text_beyond_ascii_is_handled_by_character() {
    assert_eq!(sanitize_text("é-"), "-é");
    assert_eq!(sanitize_text("-é-"), "é");
    assert_eq!(sanitize_text("数+"), "数");
    assert_eq!(sanitize_text("数"), "数");
}

#[test]
fn minus_twice_restores_the_digits() {
    let once = sanitize_text("5-");
    assert_eq!(once, "-5");
    let twice = sanitize_text(&format!("{}-", once));
    assert_eq!(twice, "5");
}

#[test]
fn cell_value_falls_back_to_zero() {
    assert_eq!(cell_value(Some(3.5), 0.0), 3.5);
    assert_eq!(cell_value(None, 0.0), 0.0);
    assert_eq!(cell_value(None::<i32>, 7), 7);
}

#[test]
fn number_text_is_read_as_the_number() {
    assert_eq!(read("3.5"), 3.5);
    assert_eq!(read("-2"), -2.0);
    assert_eq!(read("1e3"), 1000.0);
}

#[test]
fn empty_text_is_read_as_zero() {
    assert_eq!(read(""), 0.0);
}

#[test]
fn malformed_text_is_read_as_zero() {
    assert_eq!(read("abc"), 0.0);
    assert_eq!(read("-"), 0.0);
    assert_eq!(read("+"), 0.0);
    assert_eq!(read("5-3"), 0.0);
}

#[test]
fn sign_after_digits_is_applied() {
    assert_eq!(read("5-"), -5.0);
    assert_eq!(read("-5-"), 5.0);
    assert_eq!(read("0.25-"), -0.25);
    assert_eq!(read("5+"), 5.0);
}
