use exercises::roman::roman_to_arabic;

#[test]
fn test_single_character_conversion() {
    assert_eq!(roman_to_arabic("I"), 1);
}

#[test]
fn test_multiple_character_conversion() {
    assert_eq!(roman_to_arabic("III"), 3);
}

#[test]
fn test_use_correct_mapping_for_char() {
    assert_eq!(roman_to_arabic("V"), 5);
}

#[test]
fn test_handle_lower_case_mappings() {
    assert_eq!(roman_to_arabic("xvi"), 16);
}

#[test]
fn test_all_mappings_exist() {
    assert_eq!(
        roman_to_arabic("MDCLXVI"),
        1000 + 500 + 100 + 50 + 10 + 5 + 1
    );
}

#[test]
fn test_subtracting_when_lower_precedence() {
    assert_eq!(roman_to_arabic("IX"), 9);
}

#[test]
fn test_whitespace_is_trimmed() {
    assert_eq!(roman_to_arabic("  XIV \n"), 14);
}

#[test]
fn test_empty_input_is_zero() {
    assert_eq!(roman_to_arabic(""), 0);
}

#[test]
fn test_mixed_case_subtraction() {
    assert_eq!(roman_to_arabic("McM"), 1900);
}
