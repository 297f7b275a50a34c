//! Source pixel formats and packing into the controller's wire format.
//!
//! The controller takes 16-bit RGB565 words on the wire: for 8-bit samples
//! `(r, g, b)` the word is `(b >> 3) << 11 | (g >> 2) << 5 | (r >> 3)`, red
//! in the low bits. Two source layouts are supported: a 32-bit packed
//! format, four bytes `B, G, R, pad` per pixel with the padding byte
//! discarded, and a 24-bit packed format, three bytes `R, G, B` per pixel.
//! Both yield the same wire words.

use vstd::prelude::*;

verus! {

/// Fourcc code of the 32-bit packed format (`B, G, R, pad`), the
/// compatible layout with a padding byte.
pub const FOURCC_XR24: u32 = 0x34325258;

/// Fourcc code of the 24-bit packed format (`R, G, B`), the controller's
/// native layout.
pub const FOURCC_RG24: u32 = 0x34324752;

/// A fourcc code from its four ASCII bytes, first byte in the low bits.
pub open spec fn spec_fourcc(a: u8, b: u8, c: u8, d: u8) -> u32 {
    (a as u32) | ((b as u32) << 8) | ((c as u32) << 16) | ((d as u32) << 24)
}

/// Build a fourcc code from its four ASCII bytes.
pub fn fourcc(a: u8, b: u8, c: u8, d: u8) -> (r: u32)
    ensures
        r == spec_fourcc(a, b, c, d),
{
    (a as u32) | ((b as u32) << 8) | ((c as u32) << 16) | ((d as u32) << 24)
}

/// The two fourcc constants spell `XR24` and `RG24`.
pub proof fn lemma_fourcc_codes()
    ensures
        FOURCC_XR24 == spec_fourcc(0x58, 0x52, 0x32, 0x34),
        FOURCC_RG24 == spec_fourcc(0x52, 0x47, 0x32, 0x34),
{
    assert((0x58u8 as u32) | ((0x52u8 as u32) << 8) | ((0x32u8 as u32) << 16) | ((0x34u8
        as u32) << 24) == 0x34325258u32) by (bit_vector);
    assert((0x52u8 as u32) | ((0x47u8 as u32) << 8) | ((0x32u8 as u32) << 16) | ((0x34u8
        as u32) << 24) == 0x34324752u32) by (bit_vector);
}

/// The source format a framebuffer's fourcc code selects: the 32-bit
/// packed layout for `XR24`, the native 24-bit layout for anything else.
pub fn format_from_fourcc(f: u32) -> (r: PixelFormat)
    ensures
        r == if f == FOURCC_XR24 {
            PixelFormat::Xr24
        } else {
            PixelFormat::Rg24
        },
{
    if f == FOURCC_XR24 {
        PixelFormat::Xr24
    } else {
        PixelFormat::Rg24
    }
}

/// The two supported source pixel formats.
#[derive(Clone, Copy, Debug, PartialEq, Eq, Structural)]
pub enum PixelFormat {
    /// 32 bits per pixel: `B, G, R` and one padding byte.
    Xr24,
    /// 24 bits per pixel: `R, G, B`.
    Rg24,
}

impl PixelFormat {
    /// Source bytes per pixel: 4 for [`PixelFormat::Xr24`], 3 for
    /// [`PixelFormat::Rg24`].
    pub fn bytes_per_pixel(self) -> (n: usize)
        ensures
            n == self.spec_bpp(),
    {
        match self {
            PixelFormat::Xr24 => 4,
            PixelFormat::Rg24 => 3,
        }
    }

    /// Source bytes per pixel.
    pub open spec fn spec_bpp(self) -> int {
        match self {
            PixelFormat::Xr24 => 4,
            PixelFormat::Rg24 => 3,
        }
    }
}

/// The RGB565 wire word for 8-bit samples `(r, g, b)`: blue in bits 11..16,
/// green in bits 5..11, red in bits 0..5.
pub open spec fn spec_pack565(r: u8, g: u8, b: u8) -> u32 {
    (((b as u32) >> 3) << 11) | (((g as u32) >> 2) << 5) | ((r as u32) >> 3)
}

/// Pack one pixel's 8-bit samples into its RGB565 wire word.
pub fn pack565(r: u8, g: u8, b: u8) -> (w: u32)
    ensures
        w == spec_pack565(r, g, b),
        w <= 0xFFFF,
{
    let w: u32 = (((b as u32) >> 3) << 11) | (((g as u32) >> 2) << 5) | ((r as u32) >> 3);
    proof {
        assert((((b as u32) >> 3) << 11) | (((g as u32) >> 2) << 5) | ((r as u32) >> 3)
            <= 0xFFFF) by (bit_vector);
    }
    w
}

/// The wire words for a 32-bit packed source byte stream: each group of
/// four bytes `B, G, R, pad` yields one word. A trailing group of three
/// bytes still yields a word (only the padding byte is missing); one or two
/// trailing bytes are dropped.
pub open spec fn xr24_words(p: Seq<u8>) -> Seq<u32> {
    Seq::new(((p.len() + 1) / 4) as nat, |j: int| spec_pack565(p[4 * j + 2], p[4 * j + 1], p[4 * j]))
}

/// The wire words for a 24-bit packed source byte stream: each group of
/// three bytes `R, G, B` yields one word; a trailing partial group is
/// dropped.
pub open spec fn rg24_words(p: Seq<u8>) -> Seq<u32> {
    Seq::new((p.len() / 3) as nat, |j: int| spec_pack565(p[3 * j], p[3 * j + 1], p[3 * j + 2]))
}

/// The wire words for a source byte stream in the given format.
pub open spec fn wire_words(fmt: PixelFormat, p: Seq<u8>) -> Seq<u32> {
    match fmt {
        PixelFormat::Xr24 => xr24_words(p),
        PixelFormat::Rg24 => rg24_words(p),
    }
}

/// Pack a 32-bit packed source byte stream (`B, G, R, pad` per pixel) into
/// wire words.
pub fn pack_xr24(pixels: &[u8]) -> (out: Vec<u32>)
    requires
        pixels@.len() < usize::MAX,
    ensures
        out@ == xr24_words(pixels@),
{
    let len: usize = pixels.len();
    let count: usize = (len + 1) / 4;
    let mut out: Vec<u32> = Vec::new();
    let mut j: usize = 0;
    while j < count
        invariant
            j <= count,
            count == (pixels@.len() + 1) / 4,
            pixels@.len() < usize::MAX,
            out@.len() == j,
            forall|i: int| 0 <= i < j ==> out@[i] == xr24_words(pixels@)[i],
        decreases count - j,
    {
        proof {
            assert(4 * j + 2 < pixels@.len()) by (nonlinear_arith)
                requires
                    j < count,
                    count == (pixels@.len() + 1) / 4,
            ;
        }
        let b = pixels[4 * j];
        let g = pixels[4 * j + 1];
        let r = pixels[4 * j + 2];
        out.push(pack565(r, g, b));
        j = j + 1;
    }
    proof {
        assert(out@ =~= xr24_words(pixels@));
    }
    out
}

/// Pack a 24-bit packed source byte stream (`R, G, B` per pixel) into wire
/// words.
pub fn pack_rg24(pixels: &[u8]) -> (out: Vec<u32>)
    ensures
        out@ == rg24_words(pixels@),
{
    let len: usize = pixels.len();
    let count: usize = len / 3;
    let mut out: Vec<u32> = Vec::new();
    let mut j: usize = 0;
    while j < count
        invariant
            j <= count,
            count == pixels@.len() / 3,
            pixels@.len() <= usize::MAX,
            out@.len() == j,
            forall|i: int| 0 <= i < j ==> out@[i] == rg24_words(pixels@)[i],
        decreases count - j,
    {
        proof {
            assert(3 * j + 2 < pixels@.len()) by (nonlinear_arith)
                requires
                    j < count,
                    count == pixels@.len() / 3,
            ;
        }
        let r = pixels[3 * j];
        let g = pixels[3 * j + 1];
        let b = pixels[3 * j + 2];
        out.push(pack565(r, g, b));
        j = j + 1;
    }
    proof {
        assert(out@ =~= rg24_words(pixels@));
    }
    out
}

/// Pack a source byte stream in the given format into wire words.
pub fn pack_pixels(fmt: PixelFormat, pixels: &[u8]) -> (out: Vec<u32>)
    requires
        pixels@.len() < usize::MAX,
    ensures
        out@ == wire_words(fmt, pixels@),
{
    match fmt {
        PixelFormat::Xr24 => pack_xr24(pixels),
        PixelFormat::Rg24 => pack_rg24(pixels),
    }
}

} // verus!
