//! The frame in which an index is stored: the length of the payload as a
//! big-endian `u64`, then the payload compressed with zstd.

use crate::error::{ErrorKind, ErrorSpec};
use vstd::prelude::*;

verus! {

/// The bytes that zstd gives for `data` at a compression level.
pub uninterp spec fn zstd_compressed(data: Seq<u8>, level: int) -> Seq<u8>;

/// What zstd decompresses `data` to; `None` where `data` is no zstd
/// stream.
pub uninterp spec fn zstd_decompressed(data: Seq<u8>) -> Option<Seq<u8>>;

/// Calls `zstd::encode_all`. Trusted: compressing a slice into a vector
/// has no failing input, the level being clamped to what zstd knows, so a
/// result comes back as long as memory can be had; it is the named
/// compression of the data, and decompresses to the data again. The
/// error is the text of the `std::io::Error`.
#[verifier::external_body]
fn zstd_encode(data: &[u8], level: i32) -> (r: Result<Vec<u8>, String>)
    ensures
        r is Ok,
        r matches Ok(out) ==> out@ == zstd_compressed(data@, level as int) && zstd_decompressed(out@)
            == Some(data@),
{
    match zstd::encode_all(data, level) {
        Ok(out) => Ok(out),
        Err(e) => Err(e.to_string()),
    }
}

/// Calls `zstd::stream::copy_decode` into an empty vector. Trusted: a
/// result that comes back is the named decompression of the data, and an
/// error comes back only for data that is no zstd stream, as long as
/// memory can be had. The error is the text of the `std::io::Error`.
#[verifier::external_body]
fn zstd_decode(data: &[u8]) -> (r: Result<Vec<u8>, String>)
    ensures
        r matches Ok(out) ==> zstd_decompressed(data@) == Some(out@),
        r is Err ==> zstd_decompressed(data@) is None,
{
    let mut out = Vec::new();
    match zstd::stream::copy_decode(data, &mut out) {
        Ok(()) => Ok(out),
        Err(e) => Err(e.to_string()),
    }
}

/// The compression level of a stored index.
pub const INDEX_LEVEL: i32 = 3;

/// The eight bytes of a number, highest first.
pub open spec fn be64(n: u64) -> Seq<u8> {
    seq![
        (n / 0x100_0000_0000_0000) as u8,
        (n / 0x1_0000_0000_0000 % 0x100) as u8,
        (n / 0x100_0000_0000 % 0x100) as u8,
        (n / 0x1_0000_0000 % 0x100) as u8,
        (n / 0x100_0000 % 0x100) as u8,
        (n / 0x1_0000 % 0x100) as u8,
        (n / 0x100 % 0x100) as u8,
        (n % 0x100) as u8,
    ]
}

/// The number that eight bytes stand for, highest first.
pub open spec fn be64_value(b: Seq<u8>) -> int {
    b[0] * 0x100_0000_0000_0000 + b[1] * 0x1_0000_0000_0000 + b[2] * 0x100_0000_0000 + b[3]
        * 0x1_0000_0000 + b[4] * 0x100_0000 + b[5] * 0x1_0000 + b[6] * 0x100 + b[7]
}

/// The frame of a payload.
pub open spec fn frame_of(payload: Seq<u8>, level: int) -> Seq<u8> {
    be64(payload.len() as u64) + zstd_compressed(payload, level)
}

/// The payload of a frame: what follows the first eight bytes,
/// decompressed, where that has exactly the length that those bytes
/// state.
pub open spec fn unframe(bytes: Seq<u8>) -> Option<Seq<u8>> {
    if bytes.len() < 8 {
        None
    } else {
        match zstd_decompressed(bytes.skip(8)) {
            Some(payload) => if payload.len() == be64_value(bytes.take(8)) {
                Some(payload)
            } else {
                None
            },
            None => None,
        }
    }
}

/// The eight bytes stand for the number that they were made of.
pub proof fn lemma_be64_value(n: u64)
    ensures
        be64(n).len() == 8,
        be64_value(be64(n)) == n,
{
    assert(n / 0x100_0000_0000_0000 * 0x100_0000_0000_0000 + (n / 0x1_0000_0000_0000 % 0x100)
        * 0x1_0000_0000_0000 + (n / 0x100_0000_0000 % 0x100) * 0x100_0000_0000 + (n / 0x1_0000_0000
        % 0x100) * 0x1_0000_0000 + (n / 0x100_0000 % 0x100) * 0x100_0000 + (n / 0x1_0000 % 0x100)
        * 0x1_0000 + (n / 0x100 % 0x100) * 0x100 + n % 0x100 == n) by (bit_vector);
    assert(n / 0x100_0000_0000_0000 < 0x100) by (bit_vector);
}

/// Codec round trip: the frame of a payload holds that payload, given that
/// zstd restores what it compressed.
pub proof fn law_frame_round_trip(payload: Seq<u8>, level: int)
    requires
        payload.len() <= u64::MAX,
        zstd_decompressed(zstd_compressed(payload, level)) == Some(payload),
    ensures
        unframe(frame_of(payload, level)) == Some(payload),
{
    let frame = frame_of(payload, level);
    lemma_be64_value(payload.len() as u64);
    assert(frame.skip(8) =~= zstd_compressed(payload, level));
    assert(frame.take(8) =~= be64(payload.len() as u64));
}

/// Appends the eight bytes of a number, highest first.
fn push_be64(out: &mut Vec<u8>, n: u64)
    ensures
        final(out)@ == old(out)@ + be64(n),
{
    out.push((n / 0x100_0000_0000_0000) as u8);
    out.push((n / 0x1_0000_0000_0000 % 0x100) as u8);
    out.push((n / 0x100_0000_0000 % 0x100) as u8);
    out.push((n / 0x1_0000_0000 % 0x100) as u8);
    out.push((n / 0x100_0000 % 0x100) as u8);
    out.push((n / 0x1_0000 % 0x100) as u8);
    out.push((n / 0x100 % 0x100) as u8);
    out.push((n % 0x100) as u8);
    assert(out@ =~= old(out)@ + be64(n));
}

/// Reads the number that the first eight bytes stand for.
fn read_be64(bytes: &[u8]) -> (r: u64)
    requires
        bytes@.len() >= 8,
    ensures
        r == be64_value(bytes@.take(8)),
{
    let ghost b = bytes@.take(8);
    let mut n: u64 = bytes[0] as u64;
    n = n * 256 + bytes[1] as u64;
    n = n * 256 + bytes[2] as u64;
    n = n * 256 + bytes[3] as u64;
    n = n * 256 + bytes[4] as u64;
    n = n * 256 + bytes[5] as u64;
    n = n * 256 + bytes[6] as u64;
    n = n * 256 + bytes[7] as u64;
    assert(b[0] == bytes@[0] && b[1] == bytes@[1] && b[2] == bytes@[2] && b[3] == bytes@[3] && b[4]
        == bytes@[4] && b[5] == bytes@[5] && b[6] == bytes@[6] && b[7] == bytes@[7]);
    n
}

/// The frame for a payload of the given length, from what the compressor
/// gave for it: the length, then the compressed bytes. An error of the
/// compressor is passed on as `Io`, with its text.
pub fn seal(length: u64, compressed: Result<Vec<u8>, String>) -> (r: Result<Vec<u8>, ErrorKind>)
    ensures
        compressed matches Ok(c) ==> (r matches Ok(frame) && frame@ == be64(length) + c@),
        compressed matches Err(message) ==> (r matches Err(e) && e@ == ErrorSpec::Io(message@)),
{
    match compressed {
        Ok(compressed) => {
            let mut frame: Vec<u8> = Vec::new();
            push_be64(&mut frame, length);
            let n = compressed.len();
            let mut i: usize = 0;
            let ghost head = frame@;
            assert(head + compressed@.take(0) =~= head);
            while i < n
                invariant
                    n == compressed@.len(),
                    i <= n,
                    frame@ == head + compressed@.take(i as int),
                decreases n - i,
            {
                frame.push(compressed[i]);
                assert(head + compressed@.take(i + 1) =~= (head + compressed@.take(i as int)).push(
                    compressed@[i as int],
                ));
                i += 1;
            }
            proof {
                assert(compressed@.take(n as int) =~= compressed@);
                assert(head =~= be64(length));
            }
            Ok(frame)
        },
        Err(message) => Err(ErrorKind::Io(message)),
    }
}

/// The payload of a frame that states a length, from what the
/// decompressor gave for the rest of it: the payload where it has the
/// length stated, else a `Bitcode` error. An error of the decompressor is
/// passed on as `Io`, with its text.
pub fn unseal(stated: u64, decompressed: Result<Vec<u8>, String>) -> (r: Result<Vec<u8>, ErrorKind>)
    ensures
        decompressed matches Ok(payload) ==> (if payload@.len() == stated {
            r matches Ok(p) && p@ == payload@
        } else {
            r matches Err(e) && e@ == ErrorSpec::Bitcode("length mismatch"@)
        }),
        decompressed matches Err(message) ==> (r matches Err(e) && e@ == ErrorSpec::Io(message@)),
{
    match decompressed {
        Ok(payload) => {
            if payload.len() as u64 == stated {
                Ok(payload)
            } else {
                Err(ErrorKind::Bitcode(String::from_str("length mismatch")))
            }
        },
        Err(message) => Err(ErrorKind::Io(message)),
    }
}

/// Puts a payload into its frame: it is compressed and sealed. The frame
/// comes back, and holds the payload.
pub fn encode(payload: &[u8]) -> (r: Result<Vec<u8>, ErrorKind>)
    ensures
        r matches Ok(frame) && frame@ == frame_of(payload@, INDEX_LEVEL as int) && unframe(frame@) == Some(
            payload@,
        ),
{
    let length = payload.len() as u64;
    let compressed = zstd_encode(payload, INDEX_LEVEL);
    proof {
        if compressed is Ok {
            law_frame_round_trip(payload@, INDEX_LEVEL as int);
        }
    }
    seal(length, compressed)
}

/// Takes the payload out of a frame: what follows the first eight bytes
/// is decompressed and unsealed against the length that they state. The
/// payload of a frame comes back. Bytes that are no frame give an error:
/// `Io` where they are too short to state a length or do not decompress,
/// `Bitcode` where the length stated is not that of the payload.
pub fn decode(bytes: &[u8]) -> (r: Result<Vec<u8>, ErrorKind>)
    ensures
        unframe(bytes@) matches Some(payload) ==> (r matches Ok(p) && p@ == payload),
        unframe(bytes@) is None ==> r is Err,
        bytes@.len() < 8 ==> (r matches Err(e) && e@ == ErrorSpec::Io("frame too short"@)),
        bytes@.len() >= 8 && zstd_decompressed(bytes@.skip(8)) is None ==> (r matches Err(e) && e is Io),
        bytes@.len() >= 8 && zstd_decompressed(bytes@.skip(8)) is Some && unframe(bytes@) is None ==> (r matches Err(
            e,
        ) && e@ == ErrorSpec::Bitcode("length mismatch"@)),
{
    if bytes.len() < 8 {
        return Err(ErrorKind::Io(String::from_str("frame too short")));
    }
    let stated = read_be64(bytes);
    let rest = vstd::slice::slice_subrange(bytes, 8, bytes.len());
    assert(rest@ =~= bytes@.skip(8));
    unseal(stated, zstd_decode(rest))
}

} // verus!
