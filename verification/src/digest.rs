//! SHA-256 digests of manifest contents, written as `sha256:<hex>`.

use sha2::{Digest, Sha256};
use vstd::prelude::*;
use vstd::string::StringSliceAdditionalSpecFns;

use crate::text::{push_str, string_of};

verus! {

/// The SHA-256 digest of `data` as computed by the `sha2` crate.
pub uninterp spec fn sha256_of(data: Seq<u8>) -> Seq<u8>;

/// Trusted: `sha2::Sha256::digest` (through the `Digest` trait) hashes the
/// whole input and returns the 32-byte SHA-256 output; the contract names
/// that output and states its length, which `Sha256`'s `OutputSize` fixes.
#[verifier::external_body]
fn sha256(data: &[u8]) -> (out: Vec<u8>)
    ensures
        out@ == sha256_of(data@),
        out@.len() == 32,
{
    Sha256::digest(data).to_vec()
}

/// The lower-case hexadecimal digit for `d < 16`.
pub open spec fn hex_digit(d: nat) -> char {
    if d < 10 {
        (48 + d) as char
    } else {
        (87 + d) as char
    }
}

/// Each byte as two lower-case hexadecimal digits, high nibble first.
pub open spec fn hex_lower(bytes: Seq<u8>) -> Seq<char> {
    Seq::new(
        2 * bytes.len(),
        |i: int|
            if i % 2 == 0 {
                hex_digit((bytes[i / 2] / 16) as nat)
            } else {
                hex_digit((bytes[i / 2] % 16) as nat)
            },
    )
}

fn hex_char(d: u8) -> (c: char)
    requires
        d < 16,
    ensures
        c == hex_digit(d as nat),
{
    if d < 10 {
        (48u8 + d) as char
    } else {
        (87u8 + d) as char
    }
}

/// Appends the lower-case hexadecimal form of `bytes` to `out`.
pub fn push_hex(out: &mut Vec<char>, bytes: &Vec<u8>)
    ensures
        final(out)@ == old(out)@ + hex_lower(bytes@),
{
    let mut i: usize = 0;
    while i < bytes.len()
        invariant
            i <= bytes@.len(),
            out@ == old(out)@ + hex_lower(bytes@.subrange(0, i as int)),
        decreases bytes.len() - i,
    {
        let b = bytes[i];
        out.push(hex_char(b / 16));
        out.push(hex_char(b % 16));
        i = i + 1;
        assert(out@ =~= old(out)@ + hex_lower(bytes@.subrange(0, i as int)));
    }
    assert(bytes@.subrange(0, bytes@.len() as int) =~= bytes@);
}

/// `sha256:` followed by the lower-case hex SHA-256 of the UTF-8 bytes of `text`.
pub open spec fn digest_text(text: &str) -> Seq<char> {
    "sha256:"@ + hex_lower(sha256_of(text.spec_bytes()))
}

/// A lower-case hexadecimal digit.
pub open spec fn is_hex_lower(c: char) -> bool {
    ('0' <= c && c <= '9') || ('a' <= c && c <= 'f')
}

/// The digest that identifies manifest contents: `sha256:` and 64
/// lower-case hexadecimal digits.
pub fn content_digest(text: &str) -> (d: String)
    ensures
        d@ == digest_text(text),
        d@.len() == 71,
        forall|i: int| 7 <= i < 71 ==> is_hex_lower(#[trigger] d@[i]),
{
    let hash = sha256(text.as_bytes());
    let mut out: Vec<char> = Vec::new();
    push_str(&mut out, "sha256:");
    push_hex(&mut out, &hash);
    proof {
        reveal_strlit("sha256:");
        let h = hex_lower(hash@);
        assert forall|i: int| 0 <= i < h.len() implies is_hex_lower(#[trigger] h[i]) by {
            let b = hash@[i / 2];
            assert(b / 16 < 16 && b % 16 < 16);
        }
        assert forall|i: int| 7 <= i < 71 implies is_hex_lower(#[trigger] out@[i]) by {
            assert(out@[i] == h[i - 7]);
        }
    }
    string_of(&out)
}

} // verus!
