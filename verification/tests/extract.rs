use ocr_intake::extract::{
    chars_of, extract_from_chars, extract_reading, extract_readings, find_marker, BatteryReading,
    ExtractError, MARKER, MAX_PERCENT,
};

fn reading(percent: u8) -> BatteryReading {
    BatteryReading::new(percent).unwrap()
}

#[test]
fn reading_is_at_most_one_hundred() {
    assert_eq!(MAX_PERCENT, 100);
    assert_eq!(MARKER, '%');
    assert_eq!(BatteryReading::new(0).map(|r| r.percent()), Some(0));
    assert_eq!(BatteryReading::new(100).map(|r| r.percent()), Some(100));
    assert_eq!(BatteryReading::new(101), None);
    assert_eq!(BatteryReading::new(255), None);
}

#[test]
fn digits_after_the_first_character_are_the_reading() {
    assert_eq!(extract_reading("x86%XY"), Ok(reading(86)));
    assert_eq!(extract_reading(" 86%"), Ok(reading(86)));
    assert_eq!(extract_reading("[42% left"), Ok(reading(42)));
}

#[test]
fn first_character_is_set_aside_even_if_a_digit() {
    assert_eq!(extract_reading("86%XY"), Ok(reading(6)));
    assert_eq!(extract_reading("150%"), Ok(reading(50)));
    assert_eq!(extract_reading("5%"), Err(ExtractError::NoDigits));
}

#[test]
fn number_above_one_hundred_is_rejected() {
    assert_eq!(extract_reading("x150%"), Err(ExtractError::OutOfRange));
    assert_eq!(extract_reading("x101%"), Err(ExtractError::OutOfRange));
    assert_eq!(extract_reading("x1000%"), Err(ExtractError::OutOfRange));
    assert_eq!(
        extract_reading("x99999999999999999999999999999999999999999999999999999%"),
        Err(ExtractError::OutOfRange)
    );
}

#[test]
fn bounds_of_the_range_are_readings() {
    assert_eq!(extract_reading("x0%"), Ok(reading(0)));
    assert_eq!(extract_reading("x100%"), Ok(reading(100)));
    assert_eq!(extract_reading("x000100%"), Ok(reading(100)));
    assert_eq!(extract_reading("x007%"), Ok(reading(7)));
}

#[test]
fn text_without_digits_is_rejected() {
    assert_eq!(extract_reading("ab%cd"), Err(ExtractError::NoDigits));
    assert_eq!(extract_reading("%"), Err(ExtractError::NoDigits));
    assert_eq!(extract_reading("%50"), Err(ExtractError::NoDigits));
    assert_eq!(extract_reading("x%"), Err(ExtractError::NoDigits));
}

#[test]
fn line_without_marker_gives_no_reading() {
    assert_eq!(extract_reading("battery 86"), Err(ExtractError::NoMarker));
    assert_eq!(extract_reading(""), Err(ExtractError::NoMarker));
}

#[test]
fn only_digits_count() {
    assert_eq!(extract_reading("x8 6%"), Ok(reading(86)));
    assert_eq!(extract_reading("x9.5%"), Ok(reading(95)));
    assert_eq!(extract_reading("x-7%"), Ok(reading(7)));
    assert_eq!(extract_reading("xa1b2c%"), Ok(reading(12)));
    assert_eq!(extract_reading("x٣5%"), Ok(reading(5)));
}

#[test]
fn first_character_may_be_of_several_bytes() {
    assert_eq!(extract_reading("é86%"), Ok(reading(86)));
    assert_eq!(extract_reading("🔋75%"), Ok(reading(75)));
}

#[test]
fn only_the_text_before_the_first_marker_counts() {
    assert_eq!(extract_reading("x12%34%"), Ok(reading(12)));
    assert_eq!(extract_reading("x%99%"), Err(ExtractError::NoDigits));
}

#[test]
fn chars_and_marker_helpers() {
    assert_eq!(chars_of("aé%"), vec!['a', 'é', '%']);
    assert_eq!(find_marker(&chars_of("aé%b%")), Some(2));
    assert_eq!(find_marker(&chars_of("abc")), None);
    assert_eq!(extract_from_chars(&vec!['x', '4', '2', '%']), Ok(reading(42)));
}

#[test]
fn each_line_gives_its_own_reading() {
    let lines = vec![
        Some("Battery".to_string()),
        Some("x86%".to_string()),
        None,
        Some("x150%".to_string()),
        Some("ab%cd".to_string()),
        Some("x86%".to_string()),
        Some(" 3% ".to_string()),
    ];
    assert_eq!(extract_readings(&lines), vec![reading(86), reading(86), reading(3)]);
}

#[test]
fn no_lines_no_readings() {
    assert_eq!(extract_readings(&Vec::new()), Vec::new());
    assert_eq!(extract_readings(&vec![None, None]), Vec::new());
}
