//! Pictures in memory: eight-bit red, green, blue and alpha for every pixel, or as they
//! were decoded.
use vstd::prelude::*;
use std::sync::Arc;

verus! {

/// A picture. The bytes hold at least its pixels, row by row, four bytes each.
#[derive(Debug)]
pub struct Pixmap {
    pub width: u32,
    pub height: u32,
    pub data: Vec<u8>,
}

/// What a picture is: its size and its bytes.
pub struct Picture {
    pub width: u32,
    pub height: u32,
    pub bytes: Seq<u8>,
}

impl View for Pixmap {
    type V = Picture;

    open spec fn view(&self) -> Picture {
        Picture { width: self.width, height: self.height, bytes: self.data@ }
    }
}

/// Bytes that the pixels of a picture of the given size take.
pub open spec fn pixel_bytes(width: u32, height: u32) -> int {
    4 * (width as int * height as int)
}

impl Picture {
    /// Whether the bytes suffice for the size.
    pub open spec fn filled(self) -> bool {
        self.bytes.len() >= pixel_bytes(self.width, self.height)
    }
}

impl Pixmap {
    /// Whether the bytes suffice for the size.
    pub open spec fn wf(&self) -> bool {
        self@.filled()
    }

    /// A picture of the given size, if the bytes suffice for it.
    pub fn from_raw(width: u32, height: u32, data: Vec<u8>) -> (r: Option<Pixmap>)
        ensures
            match r {
                Some(p) => p.wf() && p.width == width && p.height == height && p.data == data,
                None => data@.len() < pixel_bytes(width, height),
            },
            data@.len() >= pixel_bytes(width, height) ==> r is Some,
    {
        proof {
            assert(width as int * height as int <= 0xFFFF_FFFF * 0xFFFF_FFFF) by (nonlinear_arith)
                requires
                    0 <= width <= 0xFFFF_FFFF,
                    0 <= height <= 0xFFFF_FFFF,
            ;
        }
        let pixels: u64 = width as u64 * height as u64;
        let need: u128 = pixels as u128 * 4;
        if data.len() as u128 >= need {
            Some(Pixmap { width, height, data })
        } else {
            None
        }
    }
}

/// How the pixels of a decoded picture are laid out: grey or colour, with alpha or
/// without, and the width of a channel.
#[derive(Clone, Copy, Debug, PartialEq, Eq, Structural)]
pub enum PixelLayout {
    Grey8,
    GreyAlpha8,
    Rgb8,
    Rgba8,
    Grey16,
    GreyAlpha16,
    Rgb16,
    Rgba16,
    Rgb32,
    Rgba32,
}

/// A picture as it was decoded, in the layout of its file.
#[derive(Debug)]
pub struct RawImage {
    pub width: u32,
    pub height: u32,
    pub layout: PixelLayout,
    pub bytes: Vec<u8>,
}

/// `Arc::clone` hands out another owner of the same value.
#[verifier::external_body]
pub(crate) fn share<T>(a: &Arc<T>) -> (r: Arc<T>)
    ensures
        r == *a,
{
    Arc::clone(a)
}

/// Another owner of a value, where there is one.
pub fn share_opt<T>(a: &Option<Arc<T>>) -> (r: Option<Arc<T>>)
    ensures
        r == *a,
{
    match a {
        Some(x) => Some(share(x)),
        None => None,
    }
}

} // verus!
