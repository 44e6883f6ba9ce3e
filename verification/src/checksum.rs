use vstd::prelude::*;
use sha1::Sha1;
use sha2::{Digest, Sha256};
use crate::text::{digit_char, push_char};

verus! {

/// The SHA-256 digest (FIPS 180-4) of a byte sequence.
pub uninterp spec fn sha256_of(data: Seq<u8>) -> Seq<u8>;

/// The SHA-1 digest (FIPS 180-4) of a byte sequence.
pub uninterp spec fn sha1_of(data: Seq<u8>) -> Seq<u8>;

/// `sha2::Sha256::digest`: the SHA-256 digest of `data`, 32 bytes.
#[verifier::external_body]
fn sha256_digest(data: &[u8]) -> (d: Vec<u8>)
    ensures
        d@ == sha256_of(data@),
        d@.len() == 32,
{
    Sha256::digest(data).to_vec()
}

/// `sha1::Sha1::digest`: the SHA-1 digest of `data`, 20 bytes.
#[verifier::external_body]
fn sha1_digest(data: &[u8]) -> (d: Vec<u8>)
    ensures
        d@ == sha1_of(data@),
        d@.len() == 20,
{
    Sha1::digest(data).to_vec()
}

/// A lower-case hexadecimal digit.
pub open spec fn hex_digit(d: nat) -> char {
    if d < 10 {
        digit_char(d)
    } else {
        ((d + 87) as u32) as char
    }
}

/// Each byte as two lower-case hexadecimal digits (`format!("{:02x}", b)`), concatenated.
pub open spec fn hex_lower(b: Seq<u8>) -> Seq<char>
    decreases b.len(),
{
    if b.len() == 0 {
        seq![]
    } else {
        hex_lower(b.drop_last()) + seq![
            hex_digit((b.last() / 16) as nat),
            hex_digit((b.last() % 16) as nat),
        ]
    }
}

/// A hex string has two characters per byte.
pub proof fn lemma_hex_len(b: Seq<u8>)
    ensures
        hex_lower(b).len() == 2 * b.len(),
    decreases b.len(),
{
    if b.len() > 0 {
        lemma_hex_len(b.drop_last());
    }
}

fn hex_char(d: u8) -> (c: char)
    requires
        d < 16,
    ensures
        c == hex_digit(d as nat),
{
    if d < 10 {
        (48u8 + d) as char
    } else {
        (87u8 + d) as char
    }
}

/// The lower-case hexadecimal rendering of `bytes`.
pub fn to_hex(bytes: &[u8]) -> (s: String)
    ensures
        s@ == hex_lower(bytes@),
{
    let mut s = String::new();
    let mut i: usize = 0;
    while i < bytes.len()
        invariant
            i <= bytes@.len(),
            s@ == hex_lower(bytes@.take(i as int)),
        decreases bytes@.len() - i,
    {
        let b = bytes[i];
        push_char(&mut s, hex_char(b / 16));
        push_char(&mut s, hex_char(b % 16));
        assert(bytes@.take(i + 1).drop_last() =~= bytes@.take(i as int));
        assert(bytes@.take(i + 1).last() == b);
        assert(s@ =~= hex_lower(bytes@.take(i + 1)));
        i = i + 1;
    }
    assert(bytes@.take(bytes@.len() as int) =~= bytes@);
    s
}

/// A download whose digest is not the published one.
pub struct ChecksumMismatch {
    /// The digest that was published, as given.
    pub expected: String,
    /// The digest of the bytes received, in lower-case hex.
    pub actual: String,
}

/// Compares a digest with the published lower-case hex string.
pub fn check_digest(digest: &[u8], expected: &str) -> (r: Result<(), ChecksumMismatch>)
    ensures
        r is Ok <==> hex_lower(digest@) == expected@,
        r matches Err(e) ==> e.expected@ == expected@ && e.actual@ == hex_lower(digest@),
{
    let actual = to_hex(digest);
    let exp = String::from_str(expected);
    if actual == exp {
        Ok(())
    } else {
        Err(ChecksumMismatch { expected: exp, actual })
    }
}

/// The SHA-256 digest of `data` in lower-case hex.
pub fn sha256_hex(data: &[u8]) -> (s: String)
    ensures
        s@ == hex_lower(sha256_of(data@)),
{
    let d = sha256_digest(data);
    to_hex(d.as_slice())
}

/// Checks `data` against a published SHA-256 digest.
pub fn verify_sha256(data: &[u8], expected: &str) -> (r: Result<(), ChecksumMismatch>)
    ensures
        r is Ok <==> hex_lower(sha256_of(data@)) == expected@,
        r matches Err(e) ==> e.expected@ == expected@ && e.actual@ == hex_lower(sha256_of(data@)),
{
    let d = sha256_digest(data);
    check_digest(d.as_slice(), expected)
}

/// Checks `data` against a published SHA-1 digest.
pub fn verify_sha1(data: &[u8], expected: &str) -> (r: Result<(), ChecksumMismatch>)
    ensures
        r is Ok <==> hex_lower(sha1_of(data@)) == expected@,
        r matches Err(e) ==> e.expected@ == expected@ && e.actual@ == hex_lower(sha1_of(data@)),
{
    let d = sha1_digest(data);
    check_digest(d.as_slice(), expected)
}

} // verus!
