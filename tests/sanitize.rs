use chainquest_idle::input_sanitization::{sanitize_text_input, sanitize_username, InputError};

#[test]
fn username_accepted_and_trimmed() {
    assert_eq!(sanitize_username("alice_01"), Ok("alice_01".to_string()));
    assert_eq!(sanitize_username("  bob\t\n"), Ok("bob".to_string()));
    assert_eq!(sanitize_username("abc"), Ok("abc".to_string()));
    assert_eq!(sanitize_username("a".repeat(20).as_str()), Ok("a".repeat(20)));
}

#[test]
fn username_refusals() {
    assert_eq!(sanitize_username(""), Err(InputError::Empty));
    assert_eq!(sanitize_username("    "), Err(InputError::Empty));
    assert_eq!(sanitize_username("ab"), Err(InputError::TooShort));
    assert_eq!(sanitize_username(" ab "), Err(InputError::TooShort));
    assert_eq!(sanitize_username("a".repeat(21).as_str()), Err(InputError::TooLong));
    assert_eq!(sanitize_username("bad name"), Err(InputError::InvalidCharacters));
    assert_eq!(sanitize_username("ééé"), Err(InputError::InvalidCharacters));
    assert_eq!(sanitize_username("x-y-z"), Err(InputError::InvalidCharacters));
}

#[test]
fn text_accepted_and_trimmed() {
    assert_eq!(sanitize_text_input("Hello, world!"), Ok("Hello, world!".to_string()));
    assert_eq!(sanitize_text_input("  good game? yes.  "), Ok("good game? yes.".to_string()));
    assert_eq!(sanitize_text_input("x".repeat(100).as_str()), Ok("x".repeat(100)));
}

#[test]
fn text_refusals() {
    assert_eq!(sanitize_text_input(" \t "), Err(InputError::Empty));
    assert_eq!(sanitize_text_input("x".repeat(101).as_str()), Err(InputError::TooLong));
    assert_eq!(sanitize_text_input("<script>"), Err(InputError::InvalidCharacters));
    assert_eq!(sanitize_text_input("50% off"), Err(InputError::InvalidCharacters));
}

#[test]
fn unicode_white_space_is_trimmed() {
    assert_eq!(sanitize_username("\u{3000}carol\u{a0}\u{2029}"), Ok("carol".to_string()));
    assert_eq!(sanitize_username("\u{85}\u{2000}"), Err(InputError::Empty));
    assert_eq!(sanitize_text_input("\u{202f}hi there\u{205f}"), Ok("hi there".to_string()));
}
