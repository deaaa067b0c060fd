//! Percent-encoding of text for a URL.
//!
//! The text is encoded by the `urlencoding` crate. Nothing in this file is
//! proved.

use vstd::prelude::*;
use vstd::string::StringSliceAdditionalSpecFns;

verus! {

/// Whether a byte stands for itself in a URL: a digit, a letter of ASCII,
/// or one of `-`, `.`, `_` and `~`.
pub open spec fn is_unreserved(byte: u8) -> bool {
    ||| 0x30 <= byte <= 0x39
    ||| 0x41 <= byte <= 0x5a
    ||| 0x61 <= byte <= 0x7a
    ||| byte == 0x2d
    ||| byte == 0x2e
    ||| byte == 0x5f
    ||| byte == 0x7e
}

/// The digit for a number below sixteen, with capital letters.
pub open spec fn hex_digit(digit: u8) -> char {
    if digit < 10 {
        (0x30 + digit) as char
    } else {
        (0x41 + digit - 10) as char
    }
}

/// What stands for `bytes` in a URL: each unreserved byte itself, and for
/// each other byte a percent sign and its two hexadecimal digits.
pub open spec fn percent_encoded(bytes: Seq<u8>) -> Seq<char>
    decreases bytes.len(),
{
    if bytes.len() == 0 {
        Seq::empty()
    } else {
        let byte = bytes.last();
        let before = percent_encoded(bytes.drop_last());
        if is_unreserved(byte) {
            before.push(byte as char)
        } else {
            before.push('%').push(hex_digit(byte / 16)).push(hex_digit(byte % 16))
        }
    }
}

/// `urlencoding::encode`: the bytes of `text` in UTF-8, percent-encoded.
#[verifier::external_body]
pub(crate) fn encode(text: &str) -> (encoded: String)
    ensures
        encoded@ == percent_encoded(text.spec_bytes()),
{
    urlencoding::encode(text).into_owned()
}

} // verus!
