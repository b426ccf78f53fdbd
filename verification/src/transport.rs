//! What the pipeline asks of the transport: which credential values a
//! header can carry, which header fields every call to the service bears,
//! and which response statuses count as success.

use vstd::prelude::*;
use vstd::utf8::{char_is_scalar, encode_scalar, encode_utf8, is_scalar};
use crate::model::{CredentialPart, HttpStatus};

verus! {

/// A byte that a header value may hold: the tab, or any byte from 32 on
/// but 127.
pub open spec fn header_byte(b: u8) -> bool {
    (b >= 32 && b != 127) || b == 9
}

/// Bytes that a header value may hold, each of them.
pub open spec fn header_bytes(bytes: Seq<u8>) -> bool {
    forall|i: int| 0 <= i < bytes.len() ==> header_byte(#[trigger] bytes[i])
}

/// A character that a header value may hold: the tab, or any character from
/// the space on but U+007F.
pub open spec fn header_char(c: char) -> bool {
    c as u32 == 0x09 || (c as u32 >= 0x20 && c as u32 != 0x7f)
}

/// A text that encodes as a header value: each of its characters may stand
/// in one.
pub open spec fn header_text(s: Seq<char>) -> bool {
    forall|i: int| 0 <= i < s.len() ==> header_char(#[trigger] s[i])
}

/// The first credential value that does not encode as a header value: the
/// key is looked at before the host.
pub open spec fn rejected_credential(key: Seq<char>, host: Seq<char>) -> Option<CredentialPart> {
    if !header_text(key) {
        Some(CredentialPart::Key)
    } else if !header_text(host) {
        Some(CredentialPart::Host)
    } else {
        None
    }
}

/// The two header fields that carry the credential, in the order in which
/// they are set.
pub open spec fn credential_headers(key: Seq<char>, host: Seq<char>) -> Seq<
    (Seq<char>, Seq<char>),
> {
    seq![("x-rapidapi-key"@, key), ("x-rapidapi-host"@, host)]
}

/// A status code of the success class, 200 to 299.
pub open spec fn is_success(code: u16) -> bool {
    200 <= code < 300
}

/// Calls `reqwest::header::HeaderValue::from_str` and hands back the text
/// of its error, or `None` where it accepts the value. It accepts a text
/// exactly when each byte of its UTF-8 encoding is the tab or at least 32
/// and not 127. Of the error's text nothing is claimed.
#[verifier::external_body]
fn header_value_error(value: &str) -> (error: Option<String>)
    ensures
        error is None <==> header_bytes(encode_utf8(value@)),
{
    match reqwest::header::HeaderValue::from_str(value) {
        Ok(_) => None,
        Err(e) => Some(e.to_string()),
    }
}

/// Calls `reqwest::StatusCode::from_u16` and, on what it accepts,
/// `StatusCode::is_success`, which holds of the codes 200 to 299. A code
/// that is no status code, below 100 or above 999, is no success.
#[verifier::external_body]
fn status_code_is_success(code: u16) -> (success: bool)
    ensures
        success == is_success(code),
{
    match reqwest::StatusCode::from_u16(code) {
        Ok(status) => status.is_success(),
        Err(_) => false,
    }
}

/// A byte that carries one of the marks of a multi-byte encoding is at
/// least 128.
proof fn lemma_marked_bytes(low: u8)
    by (bit_vector)
    ensures
        0x80u8 | low >= 0x80u8,
        0xC0u8 | low >= 0x80u8,
        0xE0u8 | low >= 0x80u8,
        0xF0u8 | low >= 0x80u8,
{
}

/// The low seven bits of a scalar below 128 are the scalar.
proof fn lemma_single_byte(scalar: u32)
    by (bit_vector)
    requires
        scalar <= 0x7Fu32,
    ensures
        scalar & 0x7Fu32 == scalar,
{
}

/// The encoding of a scalar below 128 is the one byte of that value; every
/// byte of the encoding of any other scalar is at least 128.
proof fn lemma_scalar_bytes(scalar: u32)
    requires
        is_scalar(scalar),
    ensures
        encode_scalar(scalar).len() > 0,
        scalar < 0x80 ==> encode_scalar(scalar) == seq![scalar as u8],
        scalar >= 0x80 ==> forall|i: int|
            0 <= i < encode_scalar(scalar).len() ==> #[trigger] encode_scalar(scalar)[i] >= 0x80,
{
    if scalar < 0x80 {
        lemma_single_byte(scalar);
    } else {
        lemma_marked_bytes(((scalar >> 6) & 0x1F) as u8);
        lemma_marked_bytes(((scalar >> 12) & 0x0F) as u8);
        lemma_marked_bytes(((scalar >> 18) & 0x7) as u8);
        lemma_marked_bytes((scalar & 0x3F) as u8);
        lemma_marked_bytes(((scalar >> 6) & 0x3F) as u8);
        lemma_marked_bytes(((scalar >> 12) & 0x3F) as u8);
    }
}

/// A text is made of characters that a header value may hold exactly when
/// its UTF-8 encoding is made of bytes that one may hold: a character
/// below U+0080 is one byte, its code point, and every byte of any other
/// character is above 127.
pub proof fn lemma_header_text_by_bytes(s: Seq<char>)
    ensures
        header_bytes(encode_utf8(s)) <==> header_text(s),
    decreases s.len(),
{
    if s.len() > 0 {
        let head = encode_scalar(s[0] as u32);
        let rest = s.drop_first();
        let tail = encode_utf8(rest);
        lemma_header_text_by_bytes(rest);
        char_is_scalar(s[0]);
        lemma_scalar_bytes(s[0] as u32);
        if header_bytes(head + tail) {
            assert((head + tail)[0] == head[0]);
            assert forall|i: int| 0 <= i < tail.len() implies header_byte(#[trigger] tail[i]) by {
                assert((head + tail)[head.len() + i] == tail[i]);
            }
            assert forall|i: int| 0 <= i < s.len() implies header_char(#[trigger] s[i]) by {
                if i > 0 {
                    assert(rest[i - 1] == s[i]);
                }
            }
        }
    }
}

/// Whether the text encodes as a header value.
pub fn encodes_as_header(value: &str) -> (ok: bool)
    ensures
        ok == header_text(value@),
{
    proof {
        lemma_header_text_by_bytes(value@);
    }
    header_value_error(value).is_none()
}

/// Whether a response with this status is a success.
pub fn answered_with_success(status: &HttpStatus) -> (success: bool)
    ensures
        success == is_success(status.code),
{
    status_code_is_success(status.code)
}

/// Checks the two credential values, the key first. The error names the
/// value that does not encode and carries the cause as the transport words
/// it.
pub fn check_credentials(api_key: &str, api_host: &str) -> (checked: Result<
    (),
    (CredentialPart, String),
>)
    ensures
        match rejected_credential(api_key@, api_host@) {
            Some(part) => checked matches Err(e) && e.0 == part,
            None => checked is Ok,
        },
{
    proof {
        lemma_header_text_by_bytes(api_key@);
        lemma_header_text_by_bytes(api_host@);
    }
    match header_value_error(api_key) {
        Some(cause) => Err((CredentialPart::Key, cause)),
        None => match header_value_error(api_host) {
            Some(cause) => Err((CredentialPart::Host, cause)),
            None => Ok(()),
        },
    }
}

/// A name and a value as owned texts.
pub fn pair_of(name: &str, value: &str) -> (pair: (String, String))
    ensures
        pair.0@ == name@,
        pair.1@ == value@,
{
    (name.to_owned(), value.to_owned())
}

/// The header fields that carry the credential.
pub fn credential_header_fields(api_key: &str, api_host: &str) -> (fields: Vec<(String, String)>)
    ensures
        crate::model::pairs_view(fields@) == credential_headers(api_key@, api_host@),
{
    let mut fields: Vec<(String, String)> = Vec::new();
    fields.push(pair_of("x-rapidapi-key", api_key));
    fields.push(pair_of("x-rapidapi-host", api_host));
    fields
}

} // verus!
