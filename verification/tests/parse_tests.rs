use keydeals::catalog::Store;
use keydeals::digits::{cents_to_string, dec_string, parse_cents, parse_sale};
use keydeals::engine::{parse_price, sale_of_badge, BadgeText, StoreError};

#[test]
fn sale_leading_two_digits() {
    assert_eq!(parse_sale("50% off"), Some(50));
}

#[test]
fn sale_leading_one_digit() {
    assert_eq!(parse_sale("5% off"), Some(5));
}

#[test]
fn sale_bare_digits() {
    assert_eq!(parse_sale("99"), Some(99));
    assert_eq!(parse_sale("0"), Some(0));
}

#[test]
fn sale_rejects_no_leading_digit() {
    assert_eq!(parse_sale("-50%"), None);
    assert_eq!(parse_sale(""), None);
    assert_eq!(parse_sale("off 50%"), None);
}

#[test]
fn sale_rejects_three_digit_run() {
    assert_eq!(parse_sale("100% off"), None);
}

#[test]
fn absent_badge_means_zero_discount() {
    assert_eq!(sale_of_badge(&BadgeText::Absent), Ok(0));
}

#[test]
fn unreadable_badge_is_extract_error() {
    assert_eq!(sale_of_badge(&BadgeText::Unreadable), Err(StoreError::Extract));
}

#[test]
fn malformed_badge_text_is_parse_error() {
    assert_eq!(
        sale_of_badge(&BadgeText::Text(String::from("-50%"))),
        Err(StoreError::Parse)
    );
}

#[test]
fn cents_two_fraction_digits() {
    assert_eq!(parse_cents("19.99"), Some(1999));
}

#[test]
fn cents_whole_number() {
    assert_eq!(parse_cents("12"), Some(1200));
}

#[test]
fn cents_one_fraction_digit() {
    assert_eq!(parse_cents("1.5"), Some(150));
}

#[test]
fn cents_rejects_malformed() {
    assert_eq!(parse_cents("12."), None);
    assert_eq!(parse_cents("12.345"), None);
    assert_eq!(parse_cents(".5"), None);
    assert_eq!(parse_cents(""), None);
    assert_eq!(parse_cents("a12"), None);
    assert_eq!(parse_cents("12,50"), None);
}

#[test]
fn cents_rejects_overflow() {
    assert_eq!(parse_cents("99999999999999999999"), None);
    // 2^64 / 100 rounded up, so the scaled amount no longer fits.
    assert_eq!(parse_cents("999999999999999999"), None);
}

#[test]
fn price_token_before_space() {
    assert_eq!(parse_price(Store::G2a, "19.99 PLN"), Ok(1999));
    assert_eq!(parse_price(Store::Kinguin, "10.00 EUR"), Ok(1000));
}

#[test]
fn price_whole_text_when_no_space() {
    assert_eq!(parse_price(Store::G2a, "7.50"), Ok(750));
}

#[test]
fn price_cdkeys_skips_three_chars() {
    assert_eq!(parse_price(Store::Cdkeys, "GBP12.34"), Ok(1234));
    assert_eq!(parse_price(Store::Cdkeys, "ab 9.99"), Ok(999));
}

#[test]
fn price_cdkeys_too_short_is_parse_error() {
    assert_eq!(parse_price(Store::Cdkeys, "12"), Err(StoreError::Parse));
}

#[test]
fn price_malformed_is_parse_error() {
    assert_eq!(parse_price(Store::G2a, "free PLN"), Err(StoreError::Parse));
    assert_eq!(parse_price(Store::Kinguin, " 19.99"), Err(StoreError::Parse));
}

#[test]
fn render_decimal() {
    assert_eq!(dec_string(0), "0");
    assert_eq!(dec_string(7), "7");
    assert_eq!(dec_string(40), "40");
    assert_eq!(dec_string(12345), "12345");
}

#[test]
fn render_cents() {
    assert_eq!(cents_to_string(0), "0");
    assert_eq!(cents_to_string(4050), "40.5");
    assert_eq!(cents_to_string(1999), "19.99");
    assert_eq!(cents_to_string(1200), "12");
    assert_eq!(cents_to_string(105), "1.05");
}
