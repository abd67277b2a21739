//! Undo history in compressed form: a picture is framed with its size and
//! compressed with Zstandard, in memory or in a file.
use vstd::prelude::*;
use vstd::bytes::{
    lemma_auto_spec_u32_to_from_le_bytes, spec_u32_from_le_bytes, spec_u32_to_le_bytes,
    u32_from_le_bytes, u32_to_le_bytes,
};
use crate::pixmap::{pixel_bytes, Picture, Pixmap};
use crate::text::{decimal, join3, to_decimal};

verus! {

/// Compression level: the fastest.
pub const ZSTD_LEVEL: i32 = 1;

/// Age in nanoseconds above which a history file left behind is removed: half an
/// hour.
pub const STALE_AGE_NANOS: u128 = 1_800_000_000_000;

/// A history entry in a file.
pub struct DiskHistoryEntry {
    pub path: String,
}

/// A picture compressed in memory.
pub struct CompressedEntry {
    pub data: Vec<u8>,
}

/// Why a picture could not be compressed or restored.
#[derive(Clone, Copy, Debug, PartialEq, Eq, Structural)]
pub enum HistoryError {
    /// The compressor or decompressor failed.
    Codec,
    /// The data ends within the header.
    Truncated,
    /// The pixels do not fill the size that the header gives.
    SizeMismatch,
}

/// Error type of `std::io`.
#[verifier::external_type_specification]
#[verifier::external_body]
pub struct ExIoError(std::io::Error);

/// The frame that `zstd` makes of bytes at a level; `None` where it fails.
pub uninterp spec fn zstd_frame(bytes: Seq<u8>, level: i32) -> Option<Seq<u8>>;

/// The bytes that `zstd` restores from compressed data; `None` where it fails.
pub uninterp spec fn zstd_content(data: Seq<u8>) -> Option<Seq<u8>>;

/// `zstd::encode_all` makes a frame of the bytes it is given, or fails, by the bytes
/// and the level alone. It compresses without loss: the frame decompresses to the
/// bytes. On which inputs it fails is not said beyond that name.
#[verifier::external_body]
fn zstd_compress(bytes: &[u8], level: i32) -> (r: Result<Vec<u8>, std::io::Error>)
    ensures
        match zstd_frame(bytes@, level) {
            Some(f) => r matches Ok(z) && z@ == f && zstd_content(f) == Some(bytes@),
            None => r is Err,
        },
{
    zstd::encode_all(bytes, level)
}

/// `zstd::decode_all` decompresses; what it does with data that was not made by
/// its compressor is left open.
#[verifier::external_body]
fn zstd_decompress(data: &[u8]) -> (r: Result<Vec<u8>, std::io::Error>)
    ensures
        match zstd_content(data@) {
            Some(bytes) => r matches Ok(v) && v@ == bytes,
            None => r is Err,
        },
{
    zstd::decode_all(data)
}

/// A picture as bytes: width and height, little end first, then its bytes.
pub open spec fn framed(p: Picture) -> Seq<u8> {
    spec_u32_to_le_bytes(p.width) + spec_u32_to_le_bytes(p.height) + p.bytes
}

/// The picture that bytes stand for.
pub open spec fn unframed(s: Seq<u8>) -> Result<Picture, HistoryError> {
    if s.len() < 8 {
        Err(HistoryError::Truncated)
    } else {
        let width = spec_u32_from_le_bytes(s.subrange(0, 4));
        let height = spec_u32_from_le_bytes(s.subrange(4, 8));
        if s.len() - 8 < pixel_bytes(width, height) {
            Err(HistoryError::SizeMismatch)
        } else {
            Ok(Picture { width, height, bytes: s.skip(8) })
        }
    }
}

/// A picture survives being framed.
pub proof fn unframed_framed(p: Picture)
    requires
        p.filled(),
    ensures
        unframed(framed(p)) == Ok::<Picture, HistoryError>(p),
{
    lemma_auto_spec_u32_to_from_le_bytes();
    let s = framed(p);
    assert(s.subrange(0, 4) =~= spec_u32_to_le_bytes(p.width));
    assert(s.subrange(4, 8) =~= spec_u32_to_le_bytes(p.height));
    assert(s.skip(8) =~= p.bytes);
}

/// The picture that compressed data stands for.
pub open spec fn restored(data: Seq<u8>) -> Result<Picture, HistoryError> {
    match zstd_content(data) {
        Some(bytes) => unframed(bytes),
        None => Err(HistoryError::Codec),
    }
}

/// Frames a picture: its size and its bytes.
pub fn frame_picture(rgba: &Pixmap) -> (r: Vec<u8>)
    ensures
        r@ == framed(rgba@),
{
    let mut raw = u32_to_le_bytes(rgba.width);
    let mut h = u32_to_le_bytes(rgba.height);
    raw.append(&mut h);
    let ghost head = raw@;
    let mut i: usize = 0;
    while i < rgba.data.len()
        invariant
            i <= rgba.data@.len(),
            raw@ =~= head + rgba.data@.take(i as int),
        decreases rgba.data@.len() - i,
    {
        raw.push(rgba.data[i]);
        i += 1;
    }
    assert(rgba.data@.take(rgba.data@.len() as int) =~= rgba.data@);
    raw
}

/// Reads a framed picture.
pub fn unframe_picture(raw: Vec<u8>) -> (r: Result<Pixmap, HistoryError>)
    ensures
        match unframed(raw@) {
            Ok(p) => r matches Ok(x) && x@ == p && x.wf(),
            Err(e) => r matches Err(f) && f == e,
        },
{
    if raw.len() < 8 {
        return Err(HistoryError::Truncated);
    }
    let ghost all = raw@;
    let mut head = raw;
    let pixels = head.split_off(8);
    let mut first = head;
    let second = first.split_off(4);
    let width: u32 = u32_from_le_bytes(first.as_slice());
    let height: u32 = u32_from_le_bytes(second.as_slice());
    proof {
        assert(first@ =~= all.subrange(0, 4));
        assert(second@ =~= all.subrange(4, 8));
        assert(pixels@ =~= all.skip(8));
    }
    match Pixmap::from_raw(width, height, pixels) {
        Some(p) => Ok(p),
        None => Err(HistoryError::SizeMismatch),
    }
}

/// Compresses a picture in memory. What comes out restores to the same picture. Fails
/// exactly where the compressor does.
pub fn compress_to_ram(rgba: &Pixmap) -> (r: Result<CompressedEntry, HistoryError>)
    ensures
        match zstd_frame(framed(rgba@), ZSTD_LEVEL) {
            Some(f) => {
                &&& r matches Ok(e) && e.data@ == f
                &&& zstd_content(f) == Some(framed(rgba@))
                &&& rgba.wf() ==> restored(f) == Ok::<Picture, HistoryError>(rgba@)
            },
            None => r matches Err(e) && e == HistoryError::Codec,
        },
{
    let raw = frame_picture(rgba);
    match zstd_compress(raw.as_slice(), ZSTD_LEVEL) {
        Ok(data) => {
            proof {
                if rgba.wf() {
                    unframed_framed(rgba@);
                }
            }
            Ok(CompressedEntry { data })
        },
        Err(_) => Err(HistoryError::Codec),
    }
}

/// Restores a picture from compressed data.
pub fn restore(data: &[u8]) -> (r: Result<Pixmap, HistoryError>)
    ensures
        match restored(data@) {
            Ok(p) => r matches Ok(x) && x@ == p && x.wf(),
            Err(e) => r matches Err(f) && f == e,
        },
{
    match zstd_decompress(data) {
        Ok(raw) => unframe_picture(raw),
        Err(_) => Err(HistoryError::Codec),
    }
}

/// Restores a picture from its compressed form in memory.
pub fn decompress_from_ram(entry: &CompressedEntry) -> (r: Result<Pixmap, HistoryError>)
    ensures
        match restored(entry.data@) {
            Ok(p) => r matches Ok(x) && x@ == p && x.wf(),
            Err(e) => r matches Err(f) && f == e,
        },
{
    restore(entry.data.as_slice())
}

/// Name of the file for an entry of an item.
pub fn history_file_name(item_id: u64, seq: usize) -> (r: String)
    ensures
        r@ == decimal(item_id as nat) + "_"@ + decimal(seq as nat) + ".zraw"@,
{
    let a = to_decimal(item_id);
    let b = to_decimal(seq as u64);
    join3(a.as_str(), "_", b.as_str()).concat(".zraw")
}

/// Whether a file left behind is removed at start.
pub fn is_stale(age_nanos: u128) -> (r: bool)
    ensures
        r == (age_nanos > STALE_AGE_NANOS),
{
    age_nanos > STALE_AGE_NANOS
}

/// The first four bytes of a framed picture say its width and the next four its
/// height, each with the lowest byte first; its own bytes follow.
pub proof fn heads_say_the_size(p: Picture)
    ensures
        framed(p).len() == p.bytes.len() + 8,
        framed(p).skip(8) == p.bytes,
        framed(p).subrange(0, 4) == spec_u32_to_le_bytes(p.width),
        framed(p).subrange(4, 8) == spec_u32_to_le_bytes(p.height),
        spec_u32_from_le_bytes(framed(p).subrange(0, 4)) == p.width,
        spec_u32_from_le_bytes(framed(p).subrange(4, 8)) == p.height,
{
    lemma_auto_spec_u32_to_from_le_bytes();
    assert(framed(p).subrange(0, 4) =~= spec_u32_to_le_bytes(p.width));
    assert(framed(p).subrange(4, 8) =~= spec_u32_to_le_bytes(p.height));
    assert(framed(p).skip(8) =~= p.bytes);
}

/// Data that ends within the header or holds fewer bytes than its size asks for is
/// refused, and only such data; what is read has all of its bytes.
pub proof fn only_whole_frames_are_read(s: Seq<u8>)
    ensures
        unframed(s) == Err::<Picture, HistoryError>(HistoryError::Truncated) <==> s.len() < 8,
        unframed(s) matches Ok(p) ==> p.bytes == s.skip(8) && p.bytes.len() >= 4 * (p.width
            * p.height),
        s.len() >= 8 && s.len() - 8 < 4 * (spec_u32_from_le_bytes(s.subrange(0, 4))
            * spec_u32_from_le_bytes(s.subrange(4, 8))) ==> unframed(s) == Err::<
            Picture,
            HistoryError,
        >(HistoryError::SizeMismatch),
{
    let w = spec_u32_from_le_bytes(s.subrange(0, 4)) as int;
    let h = spec_u32_from_le_bytes(s.subrange(4, 8)) as int;
    assert(4 * (w * h) == w * h * 4 && 4 * (w * h) == 4 * w * h) by (nonlinear_arith);
}

} // verus!
