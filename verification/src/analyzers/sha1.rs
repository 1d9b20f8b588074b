//! The checksum analyzer: consumes a byte stream incrementally and, on
//! `finish`, produces the SHA-1 digest of the whole stream as a
//! lower-case hex checksum. Hashing and hex encoding are done by the
//! `sha1`/`digest` and `base16ct` crates through the trusted wrappers
//! below.

use vstd::prelude::*;

use crate::analyzers::FileAnalyzer;
use crate::models::{Algorithm, Checksum, ChecksumView};

verus! {

#[verifier::external_type_specification]
#[verifier::external_body]
pub struct ExSha1(sha1::Sha1);

/// The bytes written into an incremental SHA-1 hashing state so far, in
/// order.
pub uninterp spec fn sha1_fed(h: sha1::Sha1) -> Seq<u8>;

/// The SHA-1 digest of a byte sequence. SHA-1 is a fixed published
/// function of the input bytes alone; its value is left unspecified here
/// and is computed only by the `sha1` crate.
pub uninterp spec fn sha1_digest_of(bytes: Seq<u8>) -> Seq<u8>;

/// Relies on `digest::Digest::new` for `sha1::Sha1`: a fresh hashing
/// state into which nothing has been written.
#[verifier::external_body]
fn sha1_new() -> (h: sha1::Sha1)
    ensures
        sha1_fed(h) == Seq::<u8>::empty(),
{
    <sha1::Sha1 as digest::Digest>::new()
}

/// Relies on `digest::Digest::update` for `sha1::Sha1`: appends the chunk
/// to the hashed stream.
#[verifier::external_body]
fn sha1_update(h: &mut sha1::Sha1, buf: &[u8])
    ensures
        sha1_fed(*final(h)) == sha1_fed(*old(h)) + buf@,
{
    digest::Digest::update(h, buf)
}

/// Relies on `digest::Digest::finalize` for `sha1::Sha1`: the 20-byte
/// SHA-1 digest of exactly the bytes written so far.
#[verifier::external_body]
fn sha1_finalize(h: sha1::Sha1) -> (r: Vec<u8>)
    ensures
        r@ == sha1_digest_of(sha1_fed(h)),
        r@.len() == 20,
{
    digest::Digest::finalize(h).as_slice().to_vec()
}

/// The lower-case hex character for a value below 16.
pub open spec fn hex_digit_char(n: u8) -> char
    recommends
        n < 16,
{
    if n == 0 { '0' }
    else if n == 1 { '1' }
    else if n == 2 { '2' }
    else if n == 3 { '3' }
    else if n == 4 { '4' }
    else if n == 5 { '5' }
    else if n == 6 { '6' }
    else if n == 7 { '7' }
    else if n == 8 { '8' }
    else if n == 9 { '9' }
    else if n == 10 { 'a' }
    else if n == 11 { 'b' }
    else if n == 12 { 'c' }
    else if n == 13 { 'd' }
    else if n == 14 { 'e' }
    else { 'f' }
}

/// Lower-case hex encoding: two digits per byte, high nibble first.
pub open spec fn hex_lower_of(bytes: Seq<u8>) -> Seq<char>
    decreases bytes.len(),
{
    if bytes.len() == 0 {
        Seq::<char>::empty()
    } else {
        seq![hex_digit_char(bytes.first() / 16), hex_digit_char(bytes.first() % 16)]
            + hex_lower_of(bytes.drop_first())
    }
}

/// Relies on `base16ct::lower::encode_string`: the lower-case hex
/// encoding of the input, two digits per byte in input order. The length
/// bound keeps the input inside what the encoder accepts without
/// panicking.
#[verifier::external_body]
fn hex_lower(bytes: &[u8]) -> (r: String)
    requires
        bytes@.len() <= usize::MAX / 2,
    ensures
        r@ == hex_lower_of(bytes@),
{
    base16ct::lower::encode_string(bytes)
}

/// The checksum the analyzer produces for a given byte stream.
pub open spec fn sha1_checksum_of(bytes: Seq<u8>) -> ChecksumView {
    ChecksumView { algorithm: Algorithm::SHA1, value: hex_lower_of(sha1_digest_of(bytes)) }
}

/// Incremental SHA-1 checksum analyzer.
pub struct Sha1Writer {
    pub sha1: sha1::Sha1,
}

impl Sha1Writer {
    /// A fresh analyzer with nothing written.
    pub fn new() -> (r: Sha1Writer)
        ensures
            r.wf(),
            r.fed() == Seq::<u8>::empty(),
    {
        Sha1Writer { sha1: sha1_new() }
    }
}

impl FileAnalyzer for Sha1Writer {
    type Output = Checksum;

    open spec fn fed(&self) -> Seq<u8> {
        sha1_fed(self.sha1)
    }

    open spec fn wf(&self) -> bool {
        true
    }

    open spec fn finish_post(&self, r: &Checksum) -> bool {
        r@ == sha1_checksum_of(self.fed())
    }

    fn write(&mut self, buf: &[u8]) {
        sha1_update(&mut self.sha1, buf);
    }

    fn flush(&mut self) {
    }

    fn finish(self) -> (r: Checksum) {
        let digest = sha1_finalize(self.sha1);
        let hash = hex_lower(digest.as_slice());
        Checksum::new(Algorithm::SHA1, hash.as_str())
    }
}

} // verus!
