//! Text functions of the standard library and what is taken of them on trust.

use vstd::prelude::*;
use vstd::utf8::{encode_utf8, valid_utf8};

use crate::text::{all_ascii, ascii_lower, ascii_upper, is_digit, is_letter, is_white_space};

verus! {

/// Whether `char::is_alphanumeric` holds of a character beyond ASCII that is not
/// white space.
pub uninterp spec fn other_alphanumeric(c: char) -> bool;

/// Whether `char::is_alphabetic` holds of a character beyond ASCII.
pub uninterp spec fn other_alphabetic(c: char) -> bool;

/// What `str::to_lowercase` makes of a text that is not all ASCII.
pub uninterp spec fn other_lowercase(s: Seq<char>) -> Seq<char>;

/// What `str::to_uppercase` makes of a text that is not all ASCII.
pub uninterp spec fn other_uppercase(s: Seq<char>) -> Seq<char>;

/// A letter or a digit.
pub open spec fn alphanumeric(c: char) -> bool {
    if (c as u32) < 0x80 {
        is_letter(c) || is_digit(c)
    } else {
        !is_white_space(c) && other_alphanumeric(c)
    }
}

/// A letter.
pub open spec fn alphabetic(c: char) -> bool {
    if (c as u32) < 0x80 {
        is_letter(c)
    } else {
        other_alphabetic(c)
    }
}

/// A text in lower case.
#[verifier::opaque]
pub open spec fn lowercase(s: Seq<char>) -> Seq<char> {
    if all_ascii(s) {
        ascii_lower(s)
    } else {
        other_lowercase(s)
    }
}

/// A text in capitals.
#[verifier::opaque]
pub open spec fn uppercase(s: Seq<char>) -> Seq<char> {
    if all_ascii(s) {
        ascii_upper(s)
    } else {
        other_uppercase(s)
    }
}

/// The text that `String::from_utf8_lossy` reads out of bytes.
pub uninterp spec fn lossy_text(bytes: Seq<u8>) -> Seq<char>;

/// `char::is_whitespace` tests Unicode's `White_Space` property.
pub assume_specification[ char::is_whitespace ](c: char) -> (r: bool)
    ensures
        r == is_white_space(c),
;

/// `char::is_alphanumeric` depends on the character alone. In the ASCII range it
/// holds of the letters and the digits. It tests for Unicode's `Alphabetic`
/// property and the categories of numbers, which no white space has.
pub assume_specification[ char::is_alphanumeric ](c: char) -> (r: bool)
    ensures
        r == alphanumeric(c),
        (c as u32) >= 0x80 && !is_white_space(c) ==> r == other_alphanumeric(c),
;

/// `char::is_alphabetic` depends on the character alone; in the ASCII range it
/// holds of the letters.
pub assume_specification[ char::is_alphabetic ](c: char) -> (r: bool)
    ensures
        r == alphabetic(c),
        (c as u32) >= 0x80 ==> r == other_alphabetic(c),
;

/// `str::to_lowercase` depends on the text alone; of an ASCII text it changes
/// the capital letters.
pub assume_specification[ str::to_lowercase ](s: &str) -> (r: String)
    ensures
        r@ == lowercase(s@),
        all_ascii(s@) ==> r@ == ascii_lower(s@),
        !all_ascii(s@) ==> r@ == other_lowercase(s@),
;

/// `str::to_uppercase` depends on the text alone; of an ASCII text it changes
/// the small letters.
pub assume_specification[ str::to_uppercase ](s: &str) -> (r: String)
    ensures
        r@ == uppercase(s@),
        all_ascii(s@) ==> r@ == ascii_upper(s@),
        !all_ascii(s@) ==> r@ == other_uppercase(s@),
;

/// `String::push` appends one character.
pub assume_specification[ String::push ](s: &mut String, c: char)
    ensures
        final(s)@ == old(s)@.push(c),
;

/// `==` on `str` compares the characters.
pub assume_specification[ <str as PartialEq>::eq ](a: &str, b: &str) -> (r: bool)
    ensures
        r == (a@ == b@),
;

/// `String::from_utf8_lossy` depends on the bytes alone, and reads valid UTF-8
/// without a change.
#[verifier::external_body]
pub(crate) fn text_from_bytes(bytes: &[u8]) -> (r: String)
    ensures
        r@ == lossy_text(bytes@),
        valid_utf8(bytes@) ==> encode_utf8(r@) == bytes@,
{
    String::from_utf8_lossy(bytes).into_owned()
}

} // verus!
