use usvg_colr::path::Builder;
use usvg_colr::text::{decimal_string, push_decimal};

#[test]
fn decimal_of_zero_and_small_numbers() {
    assert_eq!(decimal_string(0), "0");
    assert_eq!(decimal_string(7), "7");
    assert_eq!(decimal_string(10), "10");
    assert_eq!(decimal_string(42), "42");
    assert_eq!(decimal_string(1000), "1000");
}

#[test]
fn decimal_of_largest_u64() {
    assert_eq!(decimal_string(u64::MAX), "18446744073709551615");
}

#[test]
fn push_decimal_appends() {
    let mut s = String::from("lg");
    push_decimal(&mut s, 305);
    assert_eq!(s, "lg305");
}

#[test]
fn builder_writes_each_command_with_trailing_space() {
    let mut b = Builder::new();
    b.move_to("1", "2");
    assert_eq!(b.path, "M 1 2 ");
    b.line_to("3.5", "-4");
    assert_eq!(b.path, "M 1 2 L 3.5 -4 ");
    b.quad_to("1", "2", "3", "4");
    assert_eq!(b.path, "M 1 2 L 3.5 -4 Q 1 2 3 4 ");
    b.curve_to("1", "2", "3", "4", "5", "6");
    assert_eq!(b.path, "M 1 2 L 3.5 -4 Q 1 2 3 4 C 1 2 3 4 5 6 ");
    b.close();
    assert_eq!(b.path, "M 1 2 L 3.5 -4 Q 1 2 3 4 C 1 2 3 4 5 6 Z ");
}

#[test]
fn finish_removes_the_trailing_separator() {
    let mut b = Builder::new();
    b.move_to("0", "0");
    b.line_to("10", "0");
    b.close();
    b.finish();
    assert_eq!(b.path, "M 0 0 L 10 0 Z");
}

#[test]
fn finish_on_an_empty_builder_keeps_it_empty() {
    let mut b = Builder::new();
    b.finish();
    assert_eq!(b.path, "");
}

#[test]
fn finish_removes_exactly_one_character() {
    let mut b = Builder { path: String::from("ab  ") };
    b.finish();
    assert_eq!(b.path, "ab ");
    b.finish();
    assert_eq!(b.path, "ab");
}

#[test]
fn finish_removes_a_multibyte_last_character() {
    let mut b = Builder { path: String::from("xé") };
    b.finish();
    assert_eq!(b.path, "x");
}
