//! The calls this library makes into other crates, each behind a contract that
//! Verus takes on trust.

use vstd::prelude::*;
use vstd::utf8::{decode_utf8, valid_utf8};
use base64::Engine;
use md5::Digest;

verus! {

/// The symbol of a six-bit value in the standard base64 alphabet
/// (`A`-`Z`, `a`-`z`, `0`-`9`, `+`, `/`).
pub open spec fn base64_symbol(v: int) -> char {
    if v < 26 {
        (65 + v) as char
    } else if v < 52 {
        (71 + v) as char
    } else if v < 62 {
        (v - 4) as char
    } else if v == 62 {
        '+'
    } else {
        '/'
    }
}

/// Standard base64 (RFC 4648 alphabet, `=` padding): each group of three
/// bytes becomes four symbols; a last group of one or two bytes is padded.
pub open spec fn base64_standard_encoding(bytes: Seq<u8>) -> Seq<char>
    decreases bytes.len(),
{
    if bytes.len() == 0 {
        Seq::empty()
    } else if bytes.len() == 1 {
        let a = bytes[0] as int;
        seq![base64_symbol(a / 4), base64_symbol((a % 4) * 16), '=', '=']
    } else if bytes.len() == 2 {
        let a = bytes[0] as int;
        let b = bytes[1] as int;
        seq![
            base64_symbol(a / 4),
            base64_symbol((a % 4) * 16 + b / 16),
            base64_symbol((b % 16) * 4),
            '=',
        ]
    } else {
        let a = bytes[0] as int;
        let b = bytes[1] as int;
        let c = bytes[2] as int;
        seq![
            base64_symbol(a / 4),
            base64_symbol((a % 4) * 16 + b / 16),
            base64_symbol((b % 16) * 4 + c / 64),
            base64_symbol(c % 64),
        ] + base64_standard_encoding(bytes.subrange(3, bytes.len() as int))
    }
}

/// What base64's standard engine decodes from the given input bytes, or
/// `None` where it refuses the input.
pub uninterp spec fn base64_standard_decoding(text: Seq<u8>) -> Option<Seq<u8>>;

/// The `Display` text of the error base64's standard engine reports for
/// input it refuses.
pub uninterp spec fn base64_decode_error_text(text: Seq<u8>) -> Seq<char>;

/// The MD5 digest of a byte sequence.
pub uninterp spec fn md5_digest_of(bytes: Seq<u8>) -> Seq<u8>;

/// What `String::from_utf8_lossy` makes of a byte sequence.
pub uninterp spec fn utf8_lossy_decoding(bytes: Seq<u8>) -> Seq<char>;

/// tokio's bounded channel sender, carried through as an opaque value.
#[verifier::external_type_specification]
#[verifier::external_body]
#[verifier::reject_recursive_types(T)]
pub struct ExSender<T>(tokio::sync::mpsc::Sender<T>);

/// `base64::Engine::encode` on `base64::engine::general_purpose::STANDARD`.
/// Claimed: the result is the standard padded base64 encoding of the input,
/// as `base64_standard_encoding` writes it out. The engine
/// panics when the encoded length overflows `usize`; `requires` leaves those
/// inputs out.
#[verifier::external_body]
pub(crate) fn base64_encode(bytes: &[u8]) -> (text: String)
    requires
        (bytes@.len() / 3) * 4 + 4 <= usize::MAX,
    ensures
        text@ == base64_standard_encoding(bytes@),
{
    base64::engine::general_purpose::STANDARD.encode(bytes)
}

/// `base64::Engine::decode` on `base64::engine::general_purpose::STANDARD`,
/// with a refusal turned into the `Display` text of its `DecodeError`.
/// Claimed: it succeeds exactly where the standard decoding is defined, and
/// then gives that decoding; a refusal's text is the one named for the
/// input (the error depends on the input alone).
#[verifier::external_body]
pub(crate) fn base64_decode(text: &[u8]) -> (bytes: Result<Vec<u8>, String>)
    ensures
        match bytes {
            Ok(v) => base64_standard_decoding(text@) == Some(v@),
            Err(t) => base64_standard_decoding(text@) is None && t@ == base64_decode_error_text(
                text@,
            ),
        },
{
    match base64::engine::general_purpose::STANDARD.decode(text) {
        Ok(v) => Ok(v),
        Err(error) => Err(format!("{}", error)),
    }
}

/// `<md5::Md5 as Digest>::digest` from the md-5 crate. Claimed: the result is
/// the MD5 digest of the input, and it is 16 bytes long (the crate's
/// `OutputSize` is `U16`).
#[verifier::external_body]
pub(crate) fn md5_digest(bytes: &[u8]) -> (digest: Vec<u8>)
    ensures
        digest@ == md5_digest_of(bytes@),
        digest@.len() == 16,
{
    md5::Md5::digest(bytes).to_vec()
}

/// `String::from_utf8_lossy`, made owned. Claimed: the result is the lossy
/// decoding of the input, and for valid UTF-8 it is the plain decoding, as
/// the function's documentation says.
#[verifier::external_body]
pub(crate) fn utf8_lossy(bytes: &[u8]) -> (text: String)
    ensures
        text@ == utf8_lossy_decoding(bytes@),
        valid_utf8(bytes@) ==> text@ == decode_utf8(bytes@),
{
    String::from_utf8_lossy(bytes).into_owned()
}

} // verus!
