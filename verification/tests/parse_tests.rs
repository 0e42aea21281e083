use lightctl::parse::{parse_hsv, parse_main, HsvParseError, MainParseError, Mode};

#[test]
fn main_bare_low_is_moonlight() {
    assert_eq!(parse_main("0"), Ok((Mode::Moonlight, 0)));
    assert_eq!(parse_main("1"), Ok((Mode::Moonlight, 1)));
    assert_eq!(parse_main("50"), Ok((Mode::Moonlight, 50)));
    assert_eq!(parse_main("100"), Ok((Mode::Moonlight, 100)));
}

#[test]
fn main_bare_high_is_normal_reduced() {
    assert_eq!(parse_main("101"), Ok((Mode::Normal, 1)));
    assert_eq!(parse_main("150"), Ok((Mode::Normal, 50)));
    assert_eq!(parse_main("200"), Ok((Mode::Normal, 100)));
}

#[test]
fn main_bare_accepts_plus_sign_and_leading_zeros() {
    assert_eq!(parse_main("+50"), Ok((Mode::Moonlight, 50)));
    assert_eq!(parse_main("050"), Ok((Mode::Moonlight, 50)));
}

#[test]
fn main_off_is_normal_zero() {
    assert_eq!(parse_main("off"), Ok((Mode::Normal, 0)));
}

#[test]
fn main_bare_out_of_range_is_invalid_format() {
    assert_eq!(parse_main("201"), Err(MainParseError::InvalidFormat));
    assert_eq!(parse_main("255"), Err(MainParseError::InvalidFormat));
    assert_eq!(parse_main("300"), Err(MainParseError::InvalidFormat));
    assert_eq!(parse_main("999999999999"), Err(MainParseError::InvalidFormat));
}

#[test]
fn main_no_colon_non_numeric_is_invalid_format() {
    assert_eq!(parse_main("abc"), Err(MainParseError::InvalidFormat));
    assert_eq!(parse_main(""), Err(MainParseError::InvalidFormat));
    assert_eq!(parse_main("+"), Err(MainParseError::InvalidFormat));
    assert_eq!(parse_main("5x"), Err(MainParseError::InvalidFormat));
}

#[test]
fn main_moonlight_token_in_range() {
    assert_eq!(parse_main("moonlight:0"), Ok((Mode::Moonlight, 0)));
    assert_eq!(parse_main("moonlight:50"), Ok((Mode::Moonlight, 50)));
    assert_eq!(parse_main("moonlight:100"), Ok((Mode::Moonlight, 100)));
}

#[test]
fn main_normal_token_in_range() {
    assert_eq!(parse_main("normal:30"), Ok((Mode::Normal, 30)));
    assert_eq!(parse_main("normal:100"), Ok((Mode::Normal, 100)));
}

#[test]
fn main_token_value_above_hundred_is_invalid_value() {
    assert_eq!(parse_main("moonlight:101"), Err(MainParseError::InvalidValue));
    assert_eq!(parse_main("normal:255"), Err(MainParseError::InvalidValue));
}

#[test]
fn main_token_value_overflow_is_invalid_number() {
    assert_eq!(parse_main("moonlight:300"), Err(MainParseError::InvalidNumber));
    assert_eq!(parse_main("moonlight:abc"), Err(MainParseError::InvalidNumber));
    assert_eq!(parse_main("moonlight:"), Err(MainParseError::InvalidNumber));
    assert_eq!(parse_main(":"), Err(MainParseError::InvalidNumber));
}

#[test]
fn main_unknown_kind_is_invalid_value() {
    assert_eq!(parse_main("foo:50"), Err(MainParseError::InvalidValue));
    assert_eq!(parse_main("Moonlight:50"), Err(MainParseError::InvalidValue));
    assert_eq!(parse_main(":50"), Err(MainParseError::InvalidValue));
}

#[test]
fn main_two_colons_is_invalid_format() {
    assert_eq!(parse_main("a:b:c"), Err(MainParseError::InvalidFormat));
    assert_eq!(parse_main("moonlight:5:0"), Err(MainParseError::InvalidFormat));
}

#[test]
fn hsv_off_is_all_zero() {
    assert_eq!(parse_hsv("off"), Ok((0, 0, 0)));
}

#[test]
fn hsv_in_range_triple() {
    assert_eq!(parse_hsv("200,50,75"), Ok((200, 50, 75)));
    assert_eq!(parse_hsv("0,0,0"), Ok((0, 0, 0)));
    assert_eq!(parse_hsv("359,100,100"), Ok((359, 100, 100)));
}

#[test]
fn hsv_hue_above_359_is_invalid_hue() {
    assert_eq!(parse_hsv("360,0,0"), Err(HsvParseError::InvalidHue));
}

#[test]
fn hsv_saturation_above_100_is_invalid_saturation() {
    assert_eq!(parse_hsv("0,101,0"), Err(HsvParseError::InvalidSaturation));
}

#[test]
fn hsv_value_above_100_is_invalid_value() {
    assert_eq!(parse_hsv("0,0,101"), Err(HsvParseError::InvalidValue));
}

#[test]
fn hsv_wrong_field_count_is_invalid_format() {
    assert_eq!(parse_hsv("1,2"), Err(HsvParseError::InvalidFormat));
    assert_eq!(parse_hsv("1,2,3,4"), Err(HsvParseError::InvalidFormat));
    assert_eq!(parse_hsv("1"), Err(HsvParseError::InvalidFormat));
    assert_eq!(parse_hsv(""), Err(HsvParseError::InvalidFormat));
}

#[test]
fn hsv_non_numeric_field_is_invalid_number() {
    assert_eq!(parse_hsv("a,b,c"), Err(HsvParseError::InvalidNumber));
    assert_eq!(parse_hsv("1,x,3"), Err(HsvParseError::InvalidNumber));
    assert_eq!(parse_hsv(",,"), Err(HsvParseError::InvalidNumber));
}

#[test]
fn hsv_field_overflow_is_invalid_number() {
    assert_eq!(parse_hsv("70000,0,0"), Err(HsvParseError::InvalidNumber));
    assert_eq!(parse_hsv("0,300,0"), Err(HsvParseError::InvalidNumber));
}
