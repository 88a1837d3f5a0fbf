//! Checksums of tarballs, and the hasher that computes them.

use crate::error::{ErrorKind, HexError};
use vstd::prelude::*;
use vstd::utf8::encode_utf8;

verus! {

/// The SHA-512 digest of a byte sequence: 64 bytes.
pub uninterp spec fn sha512_digest(data: Seq<u8>) -> Seq<u8>;

/// The bytes that a SHA-512 state has taken in so far.
pub uninterp spec fn sha512_absorbed(state: sha2::Sha512) -> Seq<u8>;

/// The state of a running SHA-512 computation, as the `sha2` crate holds
/// it.
#[verifier::external_type_specification]
#[verifier::external_body]
pub struct ExSha512(sha2::Sha512);

/// The value of a hexadecimal digit given as an ASCII byte.
pub open spec fn hex_value(b: u8) -> Option<u8> {
    if 0x30 <= b <= 0x39 {
        Some((b - 0x30) as u8)
    } else if 0x41 <= b <= 0x46 {
        Some((b - 0x41 + 10) as u8)
    } else if 0x61 <= b <= 0x66 {
        Some((b - 0x61 + 10) as u8)
    } else {
        None
    }
}

/// The lowercase hexadecimal digit of a value below 16, as a character.
pub open spec fn hex_digit(v: u8) -> char {
    if v < 10 {
        (0x30 + v) as char
    } else {
        (0x61 + v - 10) as char
    }
}

/// The first position of a byte that is no hexadecimal digit.
pub open spec fn first_non_hex(text: Seq<u8>, from: int) -> Option<int>
    decreases text.len() + 1 - from,
{
    if from < 0 || from >= text.len() {
        None
    } else if hex_value(text[from]) is None {
        Some(from)
    } else {
        first_non_hex(text, from + 1)
    }
}

/// What decoding a hexadecimal text into `len` bytes gives.
pub open spec fn hex_decoded(text: Seq<u8>, len: nat) -> Result<Seq<u8>, HexError> {
    if text.len() % 2 != 0 {
        Err(HexError::OddLength)
    } else if text.len() / 2 != len {
        Err(HexError::InvalidStringLength)
    } else {
        match first_non_hex(text, 0) {
            Some(i) => Err(HexError::InvalidHexCharacter { c: text[i] as char, index: i as usize }),
            None => Ok(
                Seq::new(
                    len,
                    |i: int| (hex_value(text[2 * i]).unwrap() * 16 + hex_value(text[2 * i + 1]).unwrap()) as u8,
                ),
            ),
        }
    }
}

/// The lowercase hexadecimal rendering of a byte sequence.
pub open spec fn hex_encoded(data: Seq<u8>) -> Seq<char> {
    Seq::new(
        2 * data.len(),
        |i: int|
            if i % 2 == 0 {
                hex_digit(data[i / 2] / 16)
            } else {
                hex_digit(data[i / 2] % 16)
            },
    )
}

/// Calls `hex::decode_to_slice` on 64 bytes. Trusted: the text's bytes are
/// decoded two digits to a byte, in either case of the letters; the error
/// says that the number of digits is odd, that it is not 128, or which
/// byte is the first that is no digit.
#[verifier::external_body]
fn hex_decode_64(value: &str) -> (r: Result<[u8; 64], HexError>)
    ensures
        r matches Ok(bytes) ==> (hex_decoded(encode_utf8(value@), 64) matches Ok(d) && d == bytes@),
        r matches Err(e) ==> (hex_decoded(encode_utf8(value@), 64) matches Err(x) && x == e),
{
    let mut bytes = [0_u8; 64];
    match hex::decode_to_slice(value, &mut bytes) {
        Ok(()) => Ok(bytes),
        Err(hex::FromHexError::InvalidHexCharacter { c, index }) => Err(
            HexError::InvalidHexCharacter { c, index },
        ),
        Err(hex::FromHexError::OddLength) => Err(HexError::OddLength),
        Err(hex::FromHexError::InvalidStringLength) => Err(HexError::InvalidStringLength),
    }
}

/// Calls `hex::encode`. Trusted: each byte is rendered as two lowercase
/// hexadecimal digits, high one first.
#[verifier::external_body]
fn hex_encode_64(bytes: &[u8; 64]) -> (r: String)
    ensures
        r@ == hex_encoded(bytes@),
{
    hex::encode(bytes)
}

/// Calls `sha2::Sha512::new`. Trusted: the new state has taken in nothing.
#[verifier::external_body]
fn sha512_new() -> (r: sha2::Sha512)
    ensures
        sha512_absorbed(r) == Seq::<u8>::empty(),
{
    <sha2::Sha512 as sha2::Digest>::new()
}

/// Calls `Update::update` of `sha2::Sha512`. Trusted: the state has taken
/// in the data after what it held.
#[verifier::external_body]
fn sha512_update(state: &mut sha2::Sha512, data: &[u8])
    ensures
        sha512_absorbed(*final(state)) == sha512_absorbed(*old(state)) + data@,
{
    sha2::digest::Update::update(state, data)
}

/// Calls `FixedOutput::finalize_fixed` of `sha2::Sha512`. Trusted: the
/// result is the SHA-512 digest of what the state has taken in.
#[verifier::external_body]
fn sha512_finalize(state: sha2::Sha512) -> (r: [u8; 64])
    ensures
        r@ == sha512_digest(sha512_absorbed(state)),
{
    sha2::digest::FixedOutput::finalize_fixed(state).into()
}

/// A checksum: the digest of one family of hash functions.
#[derive(Debug)]
pub enum Checksum {
    Sha512([u8; 64]),
}

impl View for Checksum {
    type V = Seq<u8>;

    /// The raw digest.
    open spec fn view(&self) -> Seq<u8> {
        match self {
            Checksum::Sha512(bytes) => bytes@,
        }
    }
}

/// What parsing a checksum gives: the digest that the 128 hexadecimal
/// digits stand for.
pub open spec fn parsed_checksum(value: Seq<char>) -> Result<Seq<u8>, HexError> {
    hex_decoded(encode_utf8(value), 64)
}

impl Checksum {
    /// Reads a checksum from its hexadecimal rendering. A text that has
    /// not 128 bytes is refused as no checksum; one of that length with a
    /// byte that is no hexadecimal digit is refused with that byte.
    pub fn parse(value: &str) -> (r: Result<Checksum, ErrorKind>)
        ensures
            r is Ok <==> encode_utf8(value@).len() == 128 && parsed_checksum(value@) is Ok,
            r matches Ok(c) ==> (parsed_checksum(value@) matches Ok(d) && d == c@),
            encode_utf8(value@).len() != 128 ==> (r matches Err(ErrorKind::IntoChecksum { value: v }) && v@
                == value@),
            encode_utf8(value@).len() == 128 && parsed_checksum(value@) is Err ==> (r matches Err(
                ErrorKind::FromHex(e),
            ) && parsed_checksum(value@) matches Err(x) && x == e),
    {
        if value.as_bytes().len() == 128 {
            match hex_decode_64(value) {
                Ok(bytes) => Ok(Checksum::Sha512(bytes)),
                Err(e) => Err(ErrorKind::FromHex(e)),
            }
        } else {
            Err(ErrorKind::IntoChecksum { value: String::from_str(value) })
        }
    }

    /// The lowercase hexadecimal rendering of the digest.
    pub fn to_string(&self) -> (r: String)
        ensures
            r@ == hex_encoded(self@),
    {
        match self {
            Checksum::Sha512(v) => hex_encode_64(v),
        }
    }

    /// Whether two checksums hold the same digest.
    pub fn same(&self, other: &Checksum) -> (r: bool)
        ensures
            r == (self@ == other@),
    {
        let Checksum::Sha512(a) = self;
        let Checksum::Sha512(b) = other;
        let mut i: usize = 0;
        while i < 64
            invariant
                i <= 64,
                self@ == a@,
                other@ == b@,
                forall|j: int| 0 <= j < i ==> a@[j] == b@[j],
            decreases 64 - i,
        {
            if a[i] != b[i] {
                assert(a@[i as int] != b@[i as int]);
                return false;
            }
            i += 1;
        }
        assert(a@ =~= b@);
        true
    }

    /// A hasher of the checksum's family, which has taken in nothing yet.
    pub fn create_hasher(&self) -> (r: Sha512Hasher)
        ensures
            r.absorbed() == Seq::<u8>::empty(),
    {
        match self {
            Checksum::Sha512(_) => Sha512Hasher::new(),
        }
    }
}

impl PartialEq for Checksum {
    fn eq(&self, other: &Self) -> (r: bool) {
        self.same(other)
    }
}

impl vstd::std_specs::cmp::PartialEqSpecImpl for Checksum {
    open spec fn obeys_eq_spec() -> bool {
        true
    }

    open spec fn eq_spec(&self, other: &Self) -> bool {
        self@ == other@
    }
}

impl From<[u8; 64]> for Checksum {
    fn from(value: [u8; 64]) -> (r: Self) {
        Self::Sha512(value)
    }
}

impl vstd::std_specs::convert::FromSpecImpl<[u8; 64]> for Checksum {
    open spec fn obeys_from_spec() -> bool {
        true
    }

    open spec fn from_spec(value: [u8; 64]) -> Self {
        Checksum::Sha512(value)
    }
}

impl Clone for Checksum {
    fn clone(&self) -> (r: Self)
        ensures
            r@ == self@,
    {
        match self {
            Checksum::Sha512(bytes) => Checksum::Sha512(*bytes),
        }
    }
}

/// A stream hasher: it takes in bytes piece by piece and gives the
/// checksum of all of them.
pub trait Hasher: Sized {
    /// The bytes taken in so far.
    spec fn absorbed(&self) -> Seq<u8>;

    /// The digest that the family gives for a byte sequence.
    spec fn digest_of(data: Seq<u8>) -> Seq<u8>;

    /// Takes in more bytes.
    fn consume(&mut self, data: &[u8])
        ensures
            final(self).absorbed() == old(self).absorbed() + data@,
    ;

    /// The checksum of everything taken in.
    fn compute(self) -> (r: Checksum)
        ensures
            r@ == Self::digest_of(self.absorbed()),
    ;
}

/// The SHA-512 stream hasher.
pub struct Sha512Hasher {
    hasher: sha2::Sha512,
}

impl Sha512Hasher {
    /// A hasher that has taken in nothing.
    pub fn new() -> (r: Self)
        ensures
            r.absorbed() == Seq::<u8>::empty(),
    {
        Self { hasher: sha512_new() }
    }
}

impl Hasher for Sha512Hasher {
    closed spec fn absorbed(&self) -> Seq<u8> {
        sha512_absorbed(self.hasher)
    }

    open spec fn digest_of(data: Seq<u8>) -> Seq<u8> {
        sha512_digest(data)
    }

    fn consume(&mut self, data: &[u8]) {
        sha512_update(&mut self.hasher, data)
    }

    fn compute(self) -> (r: Checksum) {
        Checksum::Sha512(sha512_finalize(self.hasher))
    }
}


} // verus!
