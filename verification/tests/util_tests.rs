use migration_core::numerals::{i32_to_string, u64_to_string};
use migration_core::shared::dtos::{FilterOptions, PaginationRequest, PaginationResponse, SortOrder};
use migration_core::shared::pagination::{calculate_offset, calculate_total_pages, validate_page};
use migration_core::shared::text;
use migration_core::shared::validation::{
    validate_email, validate_length, validate_not_empty, validate_positive, validate_range,
    validate_username,
};
use migration_core::string_utils::{to_camel_case, to_snake_case, truncate};
use migration_core::validation::{is_strong_password, is_valid_email, is_valid_username};

#[test]
fn test_to_snake_case() {
    assert_eq!(to_snake_case("HelloWorld"), "hello_world");
    assert_eq!(to_snake_case("helloWorld"), "hello_world");
}

#[test]
fn test_to_camel_case() {
    assert_eq!(to_camel_case("hello_world"), "helloWorld");
    assert_eq!(to_camel_case("hello-world"), "helloWorld");
}

#[test]
fn test_truncate() {
    assert_eq!(truncate("hello", 10), "hello");
    assert_eq!(truncate("hello world", 8), "hello...");
}

#[test]
fn test_email_validation() {
    assert!(is_valid_email("test@example.com"));
    assert!(is_valid_email("user.name+tag@example.co.uk"));
    assert!(!is_valid_email("invalid.email"));
    assert!(!is_valid_email("@example.com"));
}

#[test]
fn test_username_validation() {
    assert!(is_valid_username("user123"));
    assert!(is_valid_username("test_user"));
    assert!(!is_valid_username("ab"));
    assert!(!is_valid_username("user@name"));
}

#[test]
fn test_password_strength() {
    assert!(is_strong_password("Password123"));
    assert!(!is_strong_password("password"));
    assert!(!is_strong_password("PASSWORD"));
    assert!(!is_strong_password("Pass12"));
}

#[test]
fn decimal_rendering() {
    assert_eq!(u64_to_string(0), "0");
    assert_eq!(u64_to_string(105), "105");
    assert_eq!(u64_to_string(u64::MAX), "18446744073709551615");
    assert_eq!(i32_to_string(-45), "-45");
    assert_eq!(i32_to_string(i32::MIN), "-2147483648");
    assert_eq!(i32_to_string(7), "7");
}

#[test]
fn shared_email_and_username_validation() {
    assert!(validate_email("test@example.com").is_ok());
    assert_eq!(validate_email("").unwrap_err(), "Email cannot be empty");
    assert_eq!(validate_email("nope").unwrap_err(), "Invalid email format");

    assert!(validate_username("a_long_enough_username_under_fifty").is_ok());
    assert_eq!(validate_username("").unwrap_err(), "Username cannot be empty");
    assert_eq!(
        validate_username("ab").unwrap_err(),
        "Username must be 3-50 characters long and contain only letters, numbers, and underscores"
    );
}

#[test]
fn shared_field_validation_messages() {
    assert!(validate_length("hello", "Name", 1, 10).is_ok());
    assert_eq!(
        validate_length("hello", "Name", 8, 10).unwrap_err(),
        "Name must be between 8 and 10 characters"
    );

    assert!(validate_not_empty("  x ", "Title").is_ok());
    assert_eq!(validate_not_empty("   ", "Title").unwrap_err(), "Title cannot be empty");

    assert!(validate_positive(3, "Age").is_ok());
    assert_eq!(validate_positive(0, "Age").unwrap_err(), "Age must be positive");

    assert!(validate_range(5, "Age", 0, 10).is_ok());
    assert_eq!(
        validate_range(-2, "Age", -1, 10).unwrap_err(),
        "Age must be between -1 and 10"
    );
}

#[test]
fn shared_text_helpers() {
    assert_eq!(text::truncate("hello", 10), "hello");
    assert_eq!(text::truncate("hello world", 8), "hello wo...");

    assert_eq!(text::sanitize("He*llo, wor!ld_9-"), "Hello world_9-");
    assert_eq!(text::sanitize(""), "");

    assert_eq!(text::to_slug("Hello, World!"), "hello-world");
    assert_eq!(text::to_slug("--Rust 2021 rocks--"), "rust-2021-rocks");
    assert_eq!(text::to_slug("!!!"), "");
}

#[test]
fn pagination_arithmetic() {
    assert_eq!(calculate_total_pages(10, 3), 4);
    assert_eq!(calculate_total_pages(9, 3), 3);
    assert_eq!(calculate_total_pages(0, 5), 0);
    assert_eq!(calculate_total_pages(10, 0), 0);

    assert_eq!(calculate_offset(0, 10), 0);
    assert_eq!(calculate_offset(1, 10), 0);
    assert_eq!(calculate_offset(3, 10), 20);
}

#[test]
fn page_validation() {
    assert!(validate_page(1, 5).is_ok());
    assert!(validate_page(5, 5).is_ok());
    assert!(validate_page(2, 0).is_ok());
    assert_eq!(validate_page(0, 5).unwrap_err(), "Page number must be greater than 0");
    assert_eq!(validate_page(7, 5).unwrap_err(), "Page 7 exceeds total pages 5");
}

#[test]
fn pagination_request_and_response() {
    let request = PaginationRequest::default();
    assert_eq!(request.page, 1);
    assert_eq!(request.page_size, 20);

    let request = PaginationRequest::new(3, 10);
    assert_eq!(request.offset(), 20);
    assert_eq!(request.limit(), 10);

    let response = PaginationResponse::new(vec![1, 2, 3], 45, 1, 10);
    assert_eq!(response.total_pages, 5);
    assert_eq!(response.data, vec![1, 2, 3]);

    let empty: PaginationResponse<i32> = PaginationResponse::new(Vec::new(), 45, 1, 0);
    assert_eq!(empty.total_pages, 0);
}

#[test]
fn filter_options_default() {
    let options = FilterOptions::default();
    assert!(options.sort_by.is_none());
    assert!(matches!(options.sort_order, SortOrder::Asc));
    assert!(options.search.is_none());
}

#[test]
fn username_validation_is_unicode_and_byte_bounded() {
    // A non-ASCII letter is alphanumeric.
    assert!(is_valid_username("us\u{e9}r12"));
    // The 3-20 bound counts bytes: ten two-byte letters fit exactly...
    assert!(is_valid_username("\u{e9}\u{e9}\u{e9}\u{e9}\u{e9}\u{e9}\u{e9}\u{e9}\u{e9}\u{e9}"));
    // ...and one more byte is too long, though only 11 characters.
    assert!(!is_valid_username("\u{e9}\u{e9}\u{e9}\u{e9}\u{e9}\u{e9}\u{e9}\u{e9}\u{e9}\u{e9}a"));
}

#[test]
fn password_strength_is_unicode() {
    // The only upper-case letter is non-ASCII.
    assert!(is_strong_password("\u{dc}ber12345"));
    // The only lower-case letter is non-ASCII.
    assert!(is_strong_password("\u{e9}PASS1234"));
}

#[test]
fn case_conversion_is_unicode() {
    assert_eq!(to_snake_case("\u{dc}berMode"), "\u{fc}ber_mode");
    assert_eq!(to_camel_case("\u{fc}ber_mode"), "\u{fc}berMode");
}

#[test]
fn slug_keeps_unicode_word_characters() {
    assert_eq!(text::to_slug("D\u{e9}j\u{e0} Vu!"), "d\u{e9}j\u{e0}-vu");
}

#[test]
fn sanitize_keeps_unicode_alphanumerics() {
    assert_eq!(text::sanitize("h\u{e9}*llo!"), "h\u{e9}llo");
}

#[test]
fn blank_detection_is_unicode() {
    // U+00A0 (no-break space) carries the White_Space property.
    assert!(validate_not_empty("\u{a0} ", "Title").is_err());
}

#[test]
fn length_validation_counts_bytes() {
    // One character, two bytes.
    assert!(validate_length("\u{e9}", "Name", 2, 2).is_ok());
    assert!(validate_length("\u{e9}", "Name", 1, 1).is_err());
}

#[test]
fn truncation_counts_bytes() {
    // Five two-byte characters: ten bytes, cut to 7 keeps 4 bytes.
    assert_eq!(truncate("\u{e9}\u{e9}\u{e9}\u{e9}\u{e9}", 7), "\u{e9}\u{e9}...");
    // The shared variant cuts at the limit itself.
    assert_eq!(text::truncate("\u{e9}\u{e9}\u{e9}", 4), "\u{e9}\u{e9}...");
}
