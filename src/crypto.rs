//! The one-way hash offered to scripts: an MD5 digest in lowercase hex.
use vstd::prelude::*;

verus! {

/// The 16 bytes of the MD5 digest of the UTF-8 encoding of `s`.
pub uninterp spec fn md5_of(s: Seq<char>) -> Seq<u8>;

/// Relies on `md5::compute`: the digest of the input's bytes, a `[u8; 16]`.
#[verifier::external_body]
fn md5_digest(input: &str) -> (r: Vec<u8>)
    ensures
        r@ == md5_of(input@),
        r@.len() == 16,
{
    md5::compute(input.as_bytes()).0.to_vec()
}

/// Relies on `String::from_iter`: the characters, in order.
#[verifier::external_body]
fn string_of_chars(chars: &Vec<char>) -> (r: String)
    ensures
        r@ == chars@,
{
    String::from_iter(chars.iter())
}

/// The lowercase hexadecimal digit of `n`, for `n < 16`.
pub open spec fn hex_digit(n: u8) -> char {
    if n < 10 {
        (n + 48) as char
    } else {
        (n + 87) as char
    }
}

/// Two lowercase hexadecimal digits per byte, high nibble first.
pub open spec fn is_hex_of(bytes: Seq<u8>, r: Seq<char>) -> bool {
    &&& r.len() == 2 * bytes.len()
    &&& forall|i: int|
        0 <= i < bytes.len() ==> r[2 * i] == hex_digit(#[trigger] bytes[i] / 16) && r[2 * i + 1] == hex_digit(bytes[i] % 16)
}

fn hex_char(n: u8) -> (c: char)
    requires
        n < 16,
    ensures
        c == hex_digit(n),
{
    if n < 10 {
        (n + 48) as char
    } else {
        (n + 87) as char
    }
}

/// Lowercase hexadecimal text of `bytes`.
pub fn hex_lower(bytes: &Vec<u8>) -> (r: String)
    requires
        bytes@.len() <= usize::MAX / 2,
    ensures
        is_hex_of(bytes@, r@),
{
    let mut chars: Vec<char> = Vec::new();
    let mut i: usize = 0;
    while i < bytes.len()
        invariant
            i <= bytes@.len(),
            bytes@.len() <= usize::MAX / 2,
            chars@.len() == 2 * i,
            forall|j: int|
                0 <= j < i ==> chars@[2 * j] == hex_digit(#[trigger] bytes@[j] / 16) && chars@[2 * j + 1] == hex_digit(bytes@[j] % 16),
        decreases bytes@.len() - i,
    {
        let b = bytes[i];
        chars.push(hex_char(b / 16));
        chars.push(hex_char(b % 16));
        i = i + 1;
    }
    string_of_chars(&chars)
}

/// The hash capability: the MD5 digest of `input` as 32 lowercase
/// hexadecimal digits.
pub fn md5_hex(input: &str) -> (r: String)
    ensures
        is_hex_of(md5_of(input@), r@),
        r@.len() == 32,
{
    let digest = md5_digest(input);
    hex_lower(&digest)
}

} // verus!
