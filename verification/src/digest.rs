//! Digests and encodings: SHA-256 from `sha2`, SHA-1 from `sha1`, standard
//! and URL-safe base64 from `base64`,
//! and lowercase hexadecimal, which is written and proved here.
use base64::Engine;
use sha2::Digest;
use vstd::prelude::*;

verus! {

/// The SHA-256 digest of a byte sequence, as `sha2::Sha256::digest` computes it.
pub uninterp spec fn sha256(data: Seq<u8>) -> Seq<u8>;

/// The base64 digit of a six-bit value: `A`-`Z`, `a`-`z`, `0`-`9`, then
/// `-` and `_` in the URL-safe alphabet, `+` and `/` in the standard one.
pub open spec fn base64_digit(v: int, url_safe: bool) -> char {
    if v < 26 {
        ((v + 65) as u8) as char
    } else if v < 52 {
        ((v - 26 + 97) as u8) as char
    } else if v < 62 {
        ((v - 52 + 48) as u8) as char
    } else if v == 62 {
        if url_safe { '-' } else { '+' }
    } else {
        if url_safe { '_' } else { '/' }
    }
}

/// Base64 (RFC 4648): each three bytes become four digits, most significant
/// bits first; a last one or two bytes become two or three digits, followed
/// by `=` to a multiple of four where `padded`.
pub open spec fn base64_text(b: Seq<u8>, url_safe: bool, padded: bool) -> Seq<char>
    decreases b.len(),
{
    let x0 = if b.len() > 0 { b[0] as int } else { 0 };
    let x1 = if b.len() > 1 { b[1] as int } else { 0 };
    let x2 = if b.len() > 2 { b[2] as int } else { 0 };
    if b.len() == 0 {
        Seq::empty()
    } else if b.len() == 1 {
        seq![base64_digit(x0 / 4, url_safe), base64_digit((x0 % 4) * 16, url_safe)] + if padded {
            seq!['=', '=']
        } else {
            Seq::empty()
        }
    } else if b.len() == 2 {
        seq![
            base64_digit(x0 / 4, url_safe),
            base64_digit((x0 % 4) * 16 + x1 / 16, url_safe),
            base64_digit((x1 % 16) * 4, url_safe),
        ] + if padded {
            seq!['=']
        } else {
            Seq::empty()
        }
    } else {
        seq![
            base64_digit(x0 / 4, url_safe),
            base64_digit((x0 % 4) * 16 + x1 / 16, url_safe),
            base64_digit((x1 % 16) * 4 + x2 / 64, url_safe),
            base64_digit(x2 % 64, url_safe),
        ] + base64_text(b.skip(3), url_safe, padded)
    }
}

/// The URL-safe base64 encoding without padding of a byte sequence, as
/// `base64::engine::general_purpose::URL_SAFE_NO_PAD.encode` computes it.
pub open spec fn base64_url_no_pad(data: Seq<u8>) -> Seq<char> {
    base64_text(data, true, false)
}

/// Hashes bytes with `sha2::Sha256::digest`. The digest depends on the bytes
/// alone and is 32 bytes long (`Sha256`'s output size).
#[verifier::external_body]
pub(crate) fn sha256_bytes(data: &[u8]) -> (r: Vec<u8>)
    ensures
        r@ == sha256(data@),
        r@.len() == 32,
{
    sha2::Sha256::digest(data).to_vec()
}

/// The SHA-1 digest of a byte sequence, as `sha1::Sha1::digest` computes it.
pub uninterp spec fn sha1(data: Seq<u8>) -> Seq<u8>;

/// Hashes bytes with `sha1::Sha1::digest`. The digest depends on the bytes
/// alone and is 20 bytes long (`Sha1`'s output size).
#[verifier::external_body]
pub(crate) fn sha1_bytes(data: &[u8]) -> (r: Vec<u8>)
    ensures
        r@ == sha1(data@),
        r@.len() == 20,
{
    sha1::Sha1::digest(data).to_vec()
}

/// Encodes bytes with `base64::engine::general_purpose::URL_SAFE_NO_PAD`:
/// the URL-safe alphabet, no padding.
#[verifier::external_body]
pub(crate) fn base64_url_encode(data: &[u8]) -> (r: String)
    ensures
        r@ == base64_url_no_pad(data@),
{
    base64::engine::general_purpose::URL_SAFE_NO_PAD.encode(data)
}

/// The standard base64 encoding, with padding, of a byte sequence, as
/// `base64::engine::general_purpose::STANDARD.encode` computes it.
pub open spec fn base64_standard(data: Seq<u8>) -> Seq<char> {
    base64_text(data, false, true)
}

/// Encodes bytes with `base64::engine::general_purpose::STANDARD`: the
/// standard alphabet, padded with `=`.
#[verifier::external_body]
pub(crate) fn base64_standard_encode(data: &[u8]) -> (r: String)
    ensures
        r@ == base64_standard(data@),
{
    base64::engine::general_purpose::STANDARD.encode(data)
}

/// The lowercase hexadecimal digit of a value below 16.
pub open spec fn hex_digit(n: int) -> char {
    if n < 10 {
        ((n + 48) as u8) as char
    } else {
        ((n - 10 + 97) as u8) as char
    }
}

/// Two lowercase hexadecimal digits per byte, most significant first: what
/// `format!("{:x}", ..)` prints for a digest.
pub open spec fn hex_lower(bytes: Seq<u8>) -> Seq<char>
    decreases bytes.len(),
{
    if bytes.len() == 0 {
        Seq::empty()
    } else {
        let b = bytes.last();
        hex_lower(bytes.drop_last()).push(hex_digit(b as int / 16)).push(hex_digit(b as int % 16))
    }
}

/// A lowercase hexadecimal digit character.
pub open spec fn is_lower_hex_char(c: char) -> bool {
    ('0' <= c && c <= '9') || ('a' <= c && c <= 'f')
}

/// An ASCII hexadecimal digit byte, either case (`u8::is_ascii_hexdigit`).
pub open spec fn is_hex_byte(b: u8) -> bool {
    (48 <= b && b <= 57) || (65 <= b && b <= 70) || (97 <= b && b <= 102)
}

/// The hexadecimal text of bytes has two characters per byte, each a lowercase
/// hexadecimal digit.
pub proof fn lemma_hex_lower_shape(bytes: Seq<u8>)
    ensures
        hex_lower(bytes).len() == 2 * bytes.len(),
        forall|i: int| 0 <= i < hex_lower(bytes).len() ==> is_lower_hex_char(#[trigger] hex_lower(bytes)[i]),
    decreases bytes.len(),
{
    if bytes.len() > 0 {
        lemma_hex_lower_shape(bytes.drop_last());
        let b = bytes.last();
        assert(b / 16 < 16);
        assert(b % 16 < 16);
    }
}

fn hex_digit_exec(n: u8) -> (c: char)
    requires
        n < 16,
    ensures
        c == hex_digit(n as int),
{
    if n < 10 {
        ((n + 48) as u8) as char
    } else {
        ((n - 10 + 97) as u8) as char
    }
}

/// Lowercase hexadecimal text of bytes.
pub fn hex_encode(bytes: &Vec<u8>) -> (r: String)
    ensures
        r@ == hex_lower(bytes@),
{
    let mut r = String::new();
    let mut i: usize = 0;
    while i < bytes.len()
        invariant
            i <= bytes.len(),
            r@ == hex_lower(bytes@.take(i as int)),
        decreases bytes.len() - i,
    {
        let b = bytes[i];
        r.push(hex_digit_exec(b / 16));
        r.push(hex_digit_exec(b % 16));
        proof {
            let t = bytes@.take(i as int + 1);
            assert(t.drop_last() =~= bytes@.take(i as int));
            assert(t.last() == b);
        }
        i = i + 1;
    }
    proof {
        assert(bytes@.take(bytes.len() as int) =~= bytes@);
    }
    r
}

} // verus!
