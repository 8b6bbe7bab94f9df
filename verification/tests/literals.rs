use gleam_format::literal::{float, int_, number, string, underscore_integer_string};
use gleam_format::pretty::render;

fn int_text(value: &str) -> String {
    render(&int_(value), 80)
}

fn float_text(value: &str) -> String {
    render(&float(value), 80)
}

#[test]
fn six_digits_are_grouped() {
    assert_eq!(int_text("100000"), "100_000");
}

#[test]
fn five_digits_are_grouped() {
    assert_eq!(int_text("10000"), "10_000");
}

#[test]
fn four_digits_are_left_alone() {
    assert_eq!(int_text("1000"), "1000");
}

#[test]
fn four_digits_lose_their_underscore() {
    assert_eq!(int_text("1_000"), "1000");
}

#[test]
fn seven_digits_get_two_underscores() {
    assert_eq!(int_text("1234567"), "1_234_567");
}

#[test]
fn misplaced_underscores_are_moved() {
    assert_eq!(int_text("1_0000_0"), "100_000");
}

#[test]
fn grouped_digits_stay_as_they_are() {
    assert_eq!(int_text("1_000_000"), "1_000_000");
}

#[test]
fn negative_five_digits_are_grouped() {
    assert_eq!(int_text("-10000"), "-10_000");
}

#[test]
fn negative_four_digits_are_left_alone() {
    assert_eq!(int_text("-1000"), "-1000");
}

#[test]
fn no_underscore_follows_the_minus() {
    assert_eq!(int_text("-100000"), "-100_000");
}

#[test]
fn hexadecimal_is_passed_through() {
    assert_eq!(int_text("0xFF"), "0xFF");
}

#[test]
fn long_hexadecimal_is_passed_through() {
    assert_eq!(int_text("0xFFFFFFFF"), "0xFFFFFFFF");
}

#[test]
fn binary_and_octal_are_passed_through() {
    assert_eq!(int_text("0b10101010"), "0b10101010");
    assert_eq!(int_text("0o1234567"), "0o1234567");
}

#[test]
fn a_trailing_underscore_is_dropped() {
    assert_eq!(int_text("10000_"), "10_000");
    assert_eq!(int_text("100_"), "100");
}

#[test]
fn underscore_integer_string_groups_from_the_right() {
    assert_eq!(render(&underscore_integer_string("12345678"), 80), "12_345_678");
}

#[test]
fn canonical_integers_are_fixed_points() {
    for value in ["0", "7", "1000", "10_000", "-10_000", "1_234_567", "0xFF", "-5"] {
        assert_eq!(int_text(&int_text(value)), int_text(value));
        assert_eq!(int_text(value), value);
    }
}

#[test]
fn trailing_zeros_of_a_fraction_are_trimmed() {
    assert_eq!(float_text("1.50"), "1.5");
}

#[test]
fn one_fractional_digit_is_kept() {
    assert_eq!(float_text("1.0"), "1.0");
    assert_eq!(float_text("1.000"), "1.0");
}

#[test]
fn a_missing_fraction_becomes_zero() {
    assert_eq!(float_text("1."), "1.0");
}

#[test]
fn the_integer_part_of_a_float_is_grouped() {
    assert_eq!(float_text("100000.0"), "100_000.0");
}

#[test]
fn the_exponent_is_kept_as_it_is() {
    assert_eq!(float_text("1.0e10"), "1.0e10");
    assert_eq!(float_text("1.500e-3"), "1.5e-3");
    assert_eq!(float_text("2.e5"), "2.0e5");
}

#[test]
fn zeros_inside_a_fraction_are_kept() {
    assert_eq!(float_text("1.0500"), "1.05");
}

#[test]
fn a_string_is_quoted() {
    assert_eq!(render(&string("hello"), 80), "\"hello\"");
}

#[test]
fn a_string_with_a_newline_breaks_its_group() {
    let doc = gleam_format::pretty::text("x")
        .append(gleam_format::pretty::break_("", " "))
        .append(string("a\nb"))
        .group();
    assert_eq!(render(&doc, 80), "x\n\"a\nb\"");
    let flat = gleam_format::pretty::text("x")
        .append(gleam_format::pretty::break_("", " "))
        .append(string("ab"))
        .group();
    assert_eq!(render(&flat, 80), "x \"ab\"");
}

#[test]
fn numbers_are_printed_in_decimal() {
    assert_eq!(render(&number(0), 80), "0");
    assert_eq!(render(&number(9), 80), "9");
    assert_eq!(render(&number(10), 80), "10");
    assert_eq!(render(&number(1234567890), 80), "1234567890");
    assert_eq!(render(&number(u64::MAX), 80), "18446744073709551615");
}

#[test]
fn nothing_after_the_dot_of_a_float_is_lost() {
    assert_eq!(float_text("1.2.30"), "1.2.3");
    assert_eq!(float_text("1.20e1.50"), "1.2e1.50");
}
