//! SHA-256 checksums of data that arrives piece by piece.
use vstd::prelude::*;
use sha2::Digest;
use crate::presets_fs::same_but_for_case;
use crate::text::{hex_digit, hex_pair, lower, lowered, lowering_only_changes_capitals};

verus! {

/// A running SHA-256 computation.
#[verifier::external_body]
pub struct Sha256Stream {
    inner: sha2::Sha256,
}

/// The bytes that a running computation has taken in.
pub uninterp spec fn taken_in(h: Sha256Stream) -> Seq<u8>;

/// The SHA-256 checksum of bytes.
pub uninterp spec fn sha256(bytes: Seq<u8>) -> Seq<u8>;

/// `sha2::Sha256::new` starts a computation that has taken in nothing.
#[verifier::external_body]
fn sha_new() -> (r: Sha256Stream)
    ensures
        taken_in(r) == Seq::<u8>::empty(),
{
    Sha256Stream { inner: sha2::Sha256::new() }
}

/// `Digest::update` takes in more bytes behind those before.
#[verifier::external_body]
fn sha_update(h: &mut Sha256Stream, data: &[u8])
    ensures
        taken_in(*final(h)) == taken_in(*old(h)) + data@,
{
    h.inner.update(data);
}

/// `Digest::finalize` gives the checksum, 32 bytes, of everything taken in.
#[verifier::external_body]
fn sha_finalize(h: Sha256Stream) -> (r: Vec<u8>)
    ensures
        r@ == sha256(taken_in(h)),
        r@.len() == 32,
{
    h.inner.finalize().to_vec()
}

/// Small hexadecimal digit of a number below sixteen.
pub open spec fn small_hex(n: int) -> char {
    if n < 10 {
        (48 + n) as u8 as char
    } else {
        (87 + n) as u8 as char
    }
}

/// Bytes in small hexadecimal digits, two for each.
pub open spec fn hex_text(bytes: Seq<u8>) -> Seq<char> {
    Seq::new(
        2 * bytes.len(),
        |i: int|
            small_hex(
                if i % 2 == 0 {
                    bytes[i / 2] as int / 16
                } else {
                    bytes[i / 2] as int % 16
                },
            ),
    )
}

/// `hex::encode` writes bytes in small hexadecimal digits, two for each.
#[verifier::external_body]
fn hex_encode(bytes: &Vec<u8>) -> (r: String)
    ensures
        r@ == hex_text(bytes@),
{
    hex::encode(bytes)
}

/// Whether a checksum in hexadecimal is that of some bytes, whatever the case of
/// its letters.
pub open spec fn checksum_matches(bytes: Seq<u8>, expected: Seq<char>) -> bool {
    lowered(hex_text(sha256(bytes))) == lowered(expected)
}

/// Checksum of data that arrives piece by piece.
pub struct Checksum {
    stream: Sha256Stream,
}

impl Checksum {
    /// The bytes taken in so far.
    pub closed spec fn bytes(&self) -> Seq<u8> {
        taken_in(self.stream)
    }

    /// Nothing taken in.
    pub fn new() -> (r: Checksum)
        ensures
            r.bytes() == Seq::<u8>::empty(),
    {
        Checksum { stream: sha_new() }
    }

    /// Takes in the next piece.
    pub fn update(&mut self, data: &[u8])
        ensures
            final(self).bytes() == old(self).bytes() + data@,
    {
        sha_update(&mut self.stream, data);
    }

    /// The checksum of everything taken in, in hexadecimal.
    pub fn finish(self) -> (r: String)
        ensures
            r@ == hex_text(sha256(self.bytes())),
    {
        let digest = sha_finalize(self.stream);
        hex_encode(&digest)
    }
}

/// Whether two checksums in hexadecimal are the same.
pub fn same_checksum(a: &str, b: &str) -> (r: bool)
    ensures
        r == (lowered(a@) == lowered(b@)),
{
    same_but_for_case(a, b)
}

/// Hexadecimal text says what the bytes are: two digits stand for each, the higher one
/// first.
pub proof fn hex_text_says_the_bytes(bytes: Seq<u8>, i: int)
    requires
        0 <= i < bytes.len(),
    ensures
        hex_text(bytes).len() == 2 * bytes.len(),
        hex_pair(hex_text(bytes)[2 * i], hex_text(bytes)[2 * i + 1]) == Some(bytes[i] as int),
        lowered(hex_text(bytes)) == hex_text(bytes),
{
    let b = bytes[i] as int;
    assert((2 * i) % 2 == 0 && (2 * i) / 2 == i);
    assert((2 * i + 1) % 2 == 1 && (2 * i + 1) / 2 == i);
    assert(hex_text(bytes)[2 * i] == small_hex(b / 16));
    assert(hex_text(bytes)[2 * i + 1] == small_hex(b % 16));
    small_hex_counts(b / 16);
    small_hex_counts(b % 16);
    hex_text_is_small(bytes);
}

proof fn small_hex_counts(n: int)
    requires
        0 <= n < 16,
    ensures
        hex_digit(small_hex(n)) == Some(n),
        lower(small_hex(n)) == small_hex(n),
{
}

proof fn hex_text_is_small(bytes: Seq<u8>)
    ensures
        lowered(hex_text(bytes)) == hex_text(bytes),
{
    assert forall|k: int| 0 <= k < hex_text(bytes).len() implies lowered(hex_text(bytes))[k]
        == hex_text(bytes)[k] by {
        let b = bytes[k / 2] as int;
        small_hex_counts(b / 16);
        small_hex_counts(b % 16);
    }
    assert(lowered(hex_text(bytes)) =~= hex_text(bytes));
}

/// A file passes only with the checksum that is its own: one checksum never fits two
/// files whose digests differ, and the case of its letters does not matter.
pub proof fn checksums_fit_one_digest(a: Seq<u8>, b: Seq<u8>, expected: Seq<char>)
    ensures
        checksum_matches(a, expected) && checksum_matches(b, expected) ==> sha256(a) == sha256(b),
        checksum_matches(a, hex_text(sha256(a))),
        checksum_matches(a, expected) <==> checksum_matches(a, lowered(expected)),
{
    lowering_only_changes_capitals(expected);
    if checksum_matches(a, expected) && checksum_matches(b, expected) {
        let x = sha256(a);
        let y = sha256(b);
        hex_text_is_small(x);
        hex_text_is_small(y);
        assert(hex_text(x) == hex_text(y));
        assert(hex_text(x).len() == 2 * x.len() && hex_text(y).len() == 2 * y.len());
        assert forall|i: int| 0 <= i < x.len() implies x[i] == y[i] by {
            hex_text_says_the_bytes(x, i);
            hex_text_says_the_bytes(y, i);
        }
        assert(x =~= y);
    }
}

} // verus!
