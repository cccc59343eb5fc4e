//! Bytes as text.

use vstd::prelude::*;
use base64::Engine;

verus! {

/// The digit for `n` in base 64; the last two digits differ in the form for URLs.
pub open spec fn base64_digit(n: int, url: bool) -> char {
    if n < 26 {
        (0x41 + n) as char
    } else if n < 52 {
        (0x61 + n - 26) as char
    } else if n < 62 {
        (0x30 + n - 52) as char
    } else if n == 62 {
        if url {
            '-'
        } else {
            '+'
        }
    } else if url {
        '_'
    } else {
        '/'
    }
}

/// `bytes` in base 64, three bytes to four digits. The form for URLs goes without the signs that
/// fill the last group up.
pub open spec fn base64_text(bytes: Seq<u8>, url: bool) -> Seq<char>
    decreases bytes.len(),
{
    if bytes.len() == 0 {
        Seq::empty()
    } else {
        let a = bytes[0] as int;
        if bytes.len() == 1 {
            seq![base64_digit(a / 4, url), base64_digit(a % 4 * 16, url)] + if url {
                Seq::empty()
            } else {
                seq!['=', '=']
            }
        } else {
            let b = bytes[1] as int;
            if bytes.len() == 2 {
                seq![
                    base64_digit(a / 4, url),
                    base64_digit(a % 4 * 16 + b / 16, url),
                    base64_digit(b % 16 * 4, url),
                ] + if url {
                    Seq::empty()
                } else {
                    seq!['=']
                }
            } else {
                let c = bytes[2] as int;
                seq![
                    base64_digit(a / 4, url),
                    base64_digit(a % 4 * 16 + b / 16, url),
                    base64_digit(b % 16 * 4 + c / 64, url),
                    base64_digit(c % 64, url),
                ] + base64_text(bytes.skip(3), url)
            }
        }
    }
}

/// `STANDARD.encode` of the `base64` crate: the standard alphabet, filled up.
#[verifier::external_body]
pub(crate) fn base64_standard(bytes: &Vec<u8>) -> (s: String)
    ensures
        s@ == base64_text(bytes@, false),
{
    base64::engine::general_purpose::STANDARD.encode(bytes)
}

/// `URL_SAFE_NO_PAD.encode` of the `base64` crate: the alphabet for URLs, not filled up.
#[verifier::external_body]
pub(crate) fn base64_url(bytes: &[u8]) -> (s: String)
    ensures
        s@ == base64_text(bytes@, true),
{
    base64::engine::general_purpose::URL_SAFE_NO_PAD.encode(bytes)
}

/// The small hexadecimal digit for `n`.
pub open spec fn hex_char(n: int) -> char {
    if n < 10 {
        (0x30 + n) as char
    } else {
        (0x61 + n - 10) as char
    }
}

/// `bytes` in hexadecimal, two digits to a byte.
pub open spec fn hex_text(bytes: Seq<u8>) -> Seq<char> {
    Seq::new(
        2 * bytes.len(),
        |i: int|
            hex_char(
                if i % 2 == 0 {
                    bytes[i / 2] as int / 16
                } else {
                    bytes[i / 2] as int % 16
                },
            ),
    )
}

/// `hex::encode`: two small hexadecimal digits to a byte.
#[verifier::external_body]
pub(crate) fn hex_encode(bytes: &[u8]) -> (s: String)
    ensures
        s@ == hex_text(bytes@),
{
    hex::encode(bytes)
}

} // verus!
