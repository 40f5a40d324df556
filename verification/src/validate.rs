//! Validation of user-entered text, and display helpers for identities.
use vstd::prelude::*;

verus! {

use vstd::string::StrSliceExecFns;
use vstd::string::StringSliceAdditionalSpecFns;

use crate::config::Config;

/// Compare two string slices character by character.
pub fn str_eq(a: &str, b: &str) -> (r: bool)
    ensures
        r == (a@ == b@),
{
    let sa = a.to_owned();
    let sb = b.to_owned();
    sa == sb
}

/// Why a piece of user-entered text was rejected.
#[derive(Clone, Copy, PartialEq, Eq, Structural, Debug)]
pub enum TextError {
    /// The text is empty.
    Empty,
    /// The text is longer than the limit, counted in bytes.
    TooLong,
    /// The text contains a control character (newlines included).
    ControlChar(char),
    /// The text contains a character outside the accepted subset.
    InvalidChar(char),
}

/// Characters accepted in user-entered text: no control characters, and
/// only the lower scripts (Basic Latin through Arabic) plus the General
/// Punctuation block. This keeps out direction overrides, emoji and
/// symbol "markup" while admitting accented names.
pub open spec fn valid_text_char(c: char) -> bool {
    (c as u32) >= 0x20 && ((c as u32) < 0x780 || (0x2000 <= (c as u32) < 0x2070))
}

/// The length of a string in bytes, as `str::len` reports it.
pub open spec fn byte_len(s: &str) -> int {
    (s.spec_bytes().len() as usize) as int
}

/// Whole-string validity of a character sequence: non-empty, within
/// the byte-length limit of its UTF-8 form, and every character
/// accepted.
pub open spec fn valid_text_seq(max_len: int, s: Seq<char>) -> bool {
    &&& s.len() > 0
    &&& (vstd::utf8::encode_utf8(s).len() as usize) as int <= max_len
    &&& forall|i: int| 0 <= i < s.len() ==> valid_text_char(#[trigger] s[i])
}

/// Whole-string validity: non-empty, within the byte-length limit, and
/// every character accepted.
pub open spec fn valid_text(max_len: int, s: &str) -> bool {
    valid_text_seq(max_len, s@)
}

/// `i` is the position of the first unacceptable character of `s`.
pub open spec fn first_bad_char_at(s: Seq<char>, i: int) -> bool {
    &&& 0 <= i < s.len()
    &&& !valid_text_char(s[i])
    &&& forall|j: int| 0 <= j < i ==> valid_text_char(#[trigger] s[j])
}

/// The error reported for an unacceptable character.
pub open spec fn char_error(c: char) -> TextError {
    if (c as u32) < 0x20 {
        TextError::ControlChar(c)
    } else {
        TextError::InvalidChar(c)
    }
}

/// Validate user input against a byte-length limit and a Unicode subset.
///
/// Empty input is reported first, then over-length input, then the first
/// character outside the accepted subset.
pub fn validate_string(max_len: usize, input: &str) -> (r: Result<(), TextError>)
    ensures
        r is Ok <==> valid_text(max_len as int, input),
        (r == Result::<(), TextError>::Err(TextError::Empty)) <==> input@.len() == 0,
        input@.len() > 0 && byte_len(input) > max_len ==> r == Result::<(), TextError>::Err(
            TextError::TooLong,
        ),
        forall|i: int|
            input@.len() > 0 && byte_len(input) <= max_len && first_bad_char_at(
                input@,
                i,
            ) ==> r == Result::<(), TextError>::Err(char_error(input@[i])),
{
    if input.is_empty() {
        return Err(TextError::Empty);
    }
    if input.len() > max_len {
        return Err(TextError::TooLong);
    }
    let n = input.unicode_len();
    let mut idx: usize = 0;
    while idx < n
        invariant
            n == input@.len(),
            byte_len(input) <= max_len,
            idx <= n,
            forall|j: int| 0 <= j < idx ==> valid_text_char(#[trigger] input@[j]),
        decreases n - idx,
    {
        let c = input.get_char(idx);
        if (c as u32) < 0x20 {
            return Err(TextError::ControlChar(c));
        }
        if (c as u32) >= 0x2000 && (c as u32) < 0x2070 {
            idx = idx + 1;
            continue;
        }
        if (c as u32) >= 0x780 {
            return Err(TextError::InvalidChar(c));
        }
        idx = idx + 1;
    }
    Ok(())
}

/// Shorten an identity for display: drop the configured email suffix
/// where it is present, and show the identity unchanged otherwise.
pub fn view_email<'a>(config: &Config, email: &'a str) -> (r: &'a str)
    ensures
        ({
            let e = email@;
            let s = config.app.email_suffix@;
            if s.len() <= e.len() && e.subrange(e.len() - s.len(), e.len() as int) == s {
                r@ == e.subrange(0, e.len() - s.len())
            } else {
                r@ == e
            }
        }),
{
    let el = email.unicode_len();
    let sl = config.app.email_suffix.as_str().unicode_len();
    if sl <= el {
        let tail = email.substring_char(el - sl, el);
        if str_eq(tail, config.app.email_suffix.as_str()) {
            return email.substring_char(0, el - sl);
        }
    }
    email
}

} // verus!
