//! Checks on text that players type: usernames and free-form messages.
//! Both are trimmed of surrounding whitespace, held to a length in bytes,
//! and matched against a pattern of allowed characters.

use vstd::prelude::*;
use vstd::utf8::encode_utf8;

verus! {

/// Allowed usernames: 3 to 20 ASCII letters, digits or underscores.
pub const USERNAME_PATTERN: &'static str = "^[a-zA-Z0-9_]{3,20}$";

/// Allowed free-form text: 1 to 100 ASCII letters, digits, whitespace or
/// `-_.,!?`.
pub const SAFE_TEXT_PATTERN: &'static str = "^[a-zA-Z0-9\\s\\-_.,!?]{1,100}$";

/// Fewest bytes in a username.
pub const USERNAME_MIN_BYTES: usize = 3;

/// Most bytes in a username.
pub const USERNAME_MAX_BYTES: usize = 20;

/// Most bytes in a free-form text.
pub const TEXT_MAX_BYTES: usize = 100;

/// Why a piece of text was refused.
#[derive(Debug, Clone, Copy, PartialEq, Eq, Structural)]
pub enum InputError {
    /// Nothing is left once surrounding whitespace is trimmed.
    Empty,
    /// Fewer bytes than allowed.
    TooShort,
    /// More bytes than allowed.
    TooLong,
    /// A character outside the allowed set.
    InvalidCharacters,
}

/// Whether `c` has the Unicode `White_Space` property.
pub open spec fn is_white_space(c: char) -> bool {
    let u = c as u32;
    ||| 0x09 <= u <= 0x0d
    ||| u == 0x20
    ||| u == 0x85
    ||| u == 0xa0
    ||| u == 0x1680
    ||| 0x2000 <= u <= 0x200a
    ||| u == 0x2028
    ||| u == 0x2029
    ||| u == 0x202f
    ||| u == 0x205f
    ||| u == 0x3000
}

/// How many white-space characters open `s`.
pub open spec fn leading_white_space(s: Seq<char>) -> nat
    decreases s.len(),
{
    if s.len() > 0 && is_white_space(s[0]) {
        1 + leading_white_space(s.drop_first())
    } else {
        0
    }
}

/// How many white-space characters close `s`.
pub open spec fn trailing_white_space(s: Seq<char>) -> nat
    decreases s.len(),
{
    if s.len() > 0 && is_white_space(s.last()) {
        1 + trailing_white_space(s.drop_last())
    } else {
        0
    }
}

/// `s` without its leading and trailing white space.
pub open spec fn trim_of(s: Seq<char>) -> Seq<char> {
    if leading_white_space(s) >= s.len() {
        Seq::empty()
    } else {
        s.subrange(leading_white_space(s) as int, s.len() - trailing_white_space(s))
    }
}

/// Relies on `str::trim`: `s` without the leading and trailing characters
/// that have the Unicode `White_Space` property.
#[verifier::external_body]
fn trim<'a>(s: &'a str) -> (r: &'a str)
    ensures
        r@ == trim_of(s@),
{
    s.trim()
}

/// Whether `c` is an ASCII letter or digit.
pub open spec fn is_ascii_alphanumeric(c: char) -> bool {
    let u = c as u32;
    ||| 0x30 <= u <= 0x39
    ||| 0x41 <= u <= 0x5a
    ||| 0x61 <= u <= 0x7a
}

/// The characters of [`USERNAME_PATTERN`]'s class `[a-zA-Z0-9_]`.
pub open spec fn is_username_char(c: char) -> bool {
    is_ascii_alphanumeric(c) || c == '_'
}

/// The characters of [`SAFE_TEXT_PATTERN`]'s class `[a-zA-Z0-9\s\-_.,!?]`,
/// where `\s` is Unicode white space.
pub open spec fn is_safe_text_char(c: char) -> bool {
    ||| is_ascii_alphanumeric(c)
    ||| is_white_space(c)
    ||| c == '-'
    ||| c == '_'
    ||| c == '.'
    ||| c == ','
    ||| c == '!'
    ||| c == '?'
}

/// The texts [`USERNAME_PATTERN`] matches: 3 to 20 characters, each in its
/// class.
pub open spec fn username_shape(t: Seq<char>) -> bool {
    &&& 3 <= t.len() <= 20
    &&& forall|i: int| 0 <= i < t.len() ==> #[trigger] is_username_char(t[i])
}

/// The texts [`SAFE_TEXT_PATTERN`] matches: 1 to 100 characters, each in
/// its class.
pub open spec fn safe_text_shape(t: Seq<char>) -> bool {
    &&& 1 <= t.len() <= 100
    &&& forall|i: int| 0 <= i < t.len() ==> #[trigger] is_safe_text_char(t[i])
}

/// Relies on `regex::Regex::new` and `Regex::is_match`, used on the two
/// patterns above only. Both compile. Each is a character class with a
/// repetition count, anchored by `^` and `$` at both ends of the text, so it
/// matches exactly the texts whose character count is within the bounds
/// and whose characters are all in the class; `\s` is the Unicode
/// `White_Space` property.
#[verifier::external_body]
fn pattern_matches(pattern: &str, text: &str) -> (r: bool)
    requires
        pattern@ == USERNAME_PATTERN@ || pattern@ == SAFE_TEXT_PATTERN@,
    ensures
        pattern@ == USERNAME_PATTERN@ ==> r == username_shape(text@),
        pattern@ == SAFE_TEXT_PATTERN@ ==> r == safe_text_shape(text@),
{
    match regex::Regex::new(pattern) {
        Ok(re) => re.is_match(text),
        Err(_) => false,
    }
}

/// What [`sanitize_username`] gives for `s`.
pub open spec fn username_check(s: Seq<char>) -> Result<Seq<char>, InputError> {
    let t = trim_of(s);
    if t.len() == 0 {
        Err(InputError::Empty)
    } else if encode_utf8(t).len() < USERNAME_MIN_BYTES {
        Err(InputError::TooShort)
    } else if encode_utf8(t).len() > USERNAME_MAX_BYTES {
        Err(InputError::TooLong)
    } else if !username_shape(t) {
        Err(InputError::InvalidCharacters)
    } else {
        Ok(t)
    }
}

/// What [`sanitize_text_input`] gives for `s`.
pub open spec fn text_check(s: Seq<char>) -> Result<Seq<char>, InputError> {
    let t = trim_of(s);
    if t.len() == 0 {
        Err(InputError::Empty)
    } else if encode_utf8(t).len() > TEXT_MAX_BYTES {
        Err(InputError::TooLong)
    } else if !safe_text_shape(t) {
        Err(InputError::InvalidCharacters)
    } else {
        Ok(t)
    }
}

/// Trims a username and checks its length and characters; gives the
/// trimmed name, or the first rule it breaks.
pub fn sanitize_username(username: &str) -> (r: Result<String, InputError>)
    ensures
        match r {
            Ok(name) => username_check(username@) == Ok::<Seq<char>, InputError>(name@),
            Err(e) => username_check(username@) == Err::<Seq<char>, InputError>(e),
        },
{
    let trimmed = trim(username);
    if trimmed.is_empty() {
        return Err(InputError::Empty);
    }
    if trimmed.as_bytes().len() < USERNAME_MIN_BYTES {
        return Err(InputError::TooShort);
    }
    if trimmed.as_bytes().len() > USERNAME_MAX_BYTES {
        return Err(InputError::TooLong);
    }
    if !pattern_matches(USERNAME_PATTERN, trimmed) {
        return Err(InputError::InvalidCharacters);
    }
    Ok(trimmed.to_owned())
}

/// Trims a free-form text and checks its length and characters; gives the
/// trimmed text, or the first rule it breaks.
pub fn sanitize_text_input(text: &str) -> (r: Result<String, InputError>)
    ensures
        match r {
            Ok(clean) => text_check(text@) == Ok::<Seq<char>, InputError>(clean@),
            Err(e) => text_check(text@) == Err::<Seq<char>, InputError>(e),
        },
{
    let trimmed = trim(text);
    if trimmed.is_empty() {
        return Err(InputError::Empty);
    }
    if trimmed.as_bytes().len() > TEXT_MAX_BYTES {
        return Err(InputError::TooLong);
    }
    if !pattern_matches(SAFE_TEXT_PATTERN, trimmed) {
        return Err(InputError::InvalidCharacters);
    }
    Ok(trimmed.to_owned())
}

} // verus!
