use vstd::prelude::*;

use crate::error::Error;
use crate::pixel::Format;
use crate::pixel::Pixel;
use crate::pixel::pixel_of;
use crate::reader::can_take;
use crate::reader::get_slice;
use crate::reader::read_u16_le;
use crate::reader::read_u32_le;
use crate::reader::read_u64_le;
use crate::reader::read_u8;
use crate::reader::u16_le_at;
use crate::reader::u32_le_at;
use crate::reader::u64_le_at;

verus! {

/// An array of color samples: a decoded palette or a frame's pixels.
pub type PixelBuffer = Vec<Pixel>;

/// The fixed 48-byte prefix of a per-frame header.
pub const FRAME_HEADER_SIZE: u16 = 48;

/// A frame's payload: one palette index per pixel, or one true-color sample
/// per pixel.
#[derive(Debug)]
pub enum DataKind {
    Indices(Vec<u8>),
    Pixels(PixelBuffer),
}

/// The mathematical value of a [`DataKind`].
#[verifier::ext_equal]
pub enum DataV {
    Indices(Seq<u8>),
    Pixels(Seq<Pixel>),
}

impl View for DataKind {
    type V = DataV;

    open spec fn view(&self) -> DataV {
        match self {
            DataKind::Indices(v) => DataV::Indices(v@),
            DataKind::Pixels(v) => DataV::Pixels(v@),
        }
    }
}

impl DataV {
    /// The number of elements: index bytes or pixels.
    pub open spec fn len(&self) -> nat {
        match self {
            DataV::Indices(v) => v.len(),
            DataV::Pixels(v) => v.len(),
        }
    }
}

impl DataKind {
    /// The number of elements: index bytes for an indexed frame, pixels for
    /// a true-color frame.
    pub fn len(&self) -> (n: usize)
        ensures
            n == self@.len(),
    {
        match self {
            DataKind::Indices(v) => v.len(),
            DataKind::Pixels(v) => v.len(),
        }
    }
}

/// A decoded 48+N byte per-frame header.
#[derive(Debug)]
pub struct Header {
    pub total_size: u32,
    pub palette_size: u32,
    pub image_size: u32,
    pub header_size: u16,
    pub color_entry_count: u16,
    pub paletted: u8,
    pub mipmap_count: u8,
    pub clut_format: u8,
    pub bpp: u8,
    pub width: u16,
    pub height: u16,
    pub gs_tex_0: u64,
    pub gs_tex_1: u64,
    pub gs_regs: u32,
    pub gs_tex_clut: u32,
    pub user_data: Vec<u8>,
}

/// The mathematical value of a [`Header`].
#[verifier::ext_equal]
pub struct HeaderV {
    pub total_size: u32,
    pub palette_size: u32,
    pub image_size: u32,
    pub header_size: u16,
    pub color_entry_count: u16,
    pub paletted: u8,
    pub mipmap_count: u8,
    pub clut_format: u8,
    pub bpp: u8,
    pub width: u16,
    pub height: u16,
    pub gs_tex_0: u64,
    pub gs_tex_1: u64,
    pub gs_regs: u32,
    pub gs_tex_clut: u32,
    pub user_data: Seq<u8>,
}

impl View for Header {
    type V = HeaderV;

    open spec fn view(&self) -> HeaderV {
        HeaderV {
            total_size: self.total_size,
            palette_size: self.palette_size,
            image_size: self.image_size,
            header_size: self.header_size,
            color_entry_count: self.color_entry_count,
            paletted: self.paletted,
            mipmap_count: self.mipmap_count,
            clut_format: self.clut_format,
            bpp: self.bpp,
            width: self.width,
            height: self.height,
            gs_tex_0: self.gs_tex_0,
            gs_tex_1: self.gs_tex_1,
            gs_regs: self.gs_regs,
            gs_tex_clut: self.gs_tex_clut,
            user_data: self.user_data@,
        }
    }
}

/// The bit depth named by a header's `bpp_code`: `1 -> 16`, `2 -> 24`,
/// `3 -> 32`, `4 -> 4`, `5 -> 8`; anything else is `InvalidBppFormat`.
pub open spec fn find_bpp_spec(v: u8) -> Result<u8, Error> {
    match v {
        1u8 => Ok(16u8),
        2u8 => Ok(24u8),
        3u8 => Ok(32u8),
        4u8 => Ok(4u8),
        5u8 => Ok(8u8),
        _ => Err(Error::InvalidBppFormat(v)),
    }
}

/// The pixel format of a normalized bit depth.
pub open spec fn pixel_format_spec(bpp: u8) -> Result<Format, Error> {
    match bpp {
        4u8 => Ok(Format::Indexed4),
        8u8 => Ok(Format::Indexed8),
        16u8 => Ok(Format::Abgr1555),
        24u8 => Ok(Format::Rgb888),
        32u8 => Ok(Format::Rgba8888),
        _ => Err(Error::InvalidBpp(bpp)),
    }
}

impl HeaderV {
    /// Palettes are stored linearly (no block/stripe permutation) when bit 7
    /// of `clut_format` is set.
    pub open spec fn is_linear_palette(&self) -> bool {
        self.clut_format & 0x80 != 0
    }

    /// Bytes per color sample: `bpp / 8` for true-color frames, else the low
    /// three bits of `clut_format` plus one.
    pub open spec fn color_size(&self) -> int {
        if self.bpp > 8 {
            self.bpp as int / 8
        } else {
            (self.clut_format & 0x07) + 1
        }
    }

    /// Pixel data is stored in the hardware's 16x8 tile order when bit 55 of
    /// `gs_tex_0` is set.
    pub open spec fn needs_unswizzle(&self) -> bool {
        self.gs_tex_0 & (1u64 << 55) != 0
    }

    /// What a successfully parsed header always satisfies: a normalized bit
    /// depth, and a palette if and only if the frame is indexed.
    pub open spec fn wf(&self) -> bool {
        &&& (self.bpp == 4 || self.bpp == 8 || self.bpp == 16 || self.bpp == 24 || self.bpp == 32)
        &&& (self.palette_size > 0 <==> self.bpp <= 8)
        &&& self.header_size >= FRAME_HEADER_SIZE
    }
}

/// What parsing a frame header at `off` yields: the header and the offset
/// just past it, or the first error on the way.
///
/// The 48-byte prefix is read in field order, all integers little-endian
/// except where noted; the `bpp_code` at offset 19 is normalized before the
/// fields after it are read, so an invalid code is reported even when the
/// buffer ends before the full prefix.  A declared `header_size` below 48,
/// or one that points past the input, is `UnexpectedEndOfInput`.  A palette
/// together with a true-color depth, or a paletted depth without a palette,
/// is `TrueColorAndPaletteFound`.
#[verifier::opaque]
pub open spec fn header_spec(b: Seq<u8>, off: int) -> Result<(HeaderV, int), Error>
    recommends
        0 <= off,
{
    if !can_take(b.len() as int, off, 20) {
        Err(Error::UnexpectedEndOfInput)
    } else {
        match find_bpp_spec(b[off + 19]) {
            Err(e) => Err(e),
            Ok(bpp) => {
                if !can_take(b.len() as int, off, 48) {
                    Err(Error::UnexpectedEndOfInput)
                } else {
                    let header_size = u16_le_at(b, off + 12);
                    if header_size < FRAME_HEADER_SIZE {
                        Err(Error::UnexpectedEndOfInput)
                    } else if !can_take(b.len() as int, off, header_size as int) {
                        Err(Error::UnexpectedEndOfInput)
                    } else {
                        let h = HeaderV {
                            total_size: u32_le_at(b, off),
                            palette_size: u32_le_at(b, off + 4),
                            image_size: u32_le_at(b, off + 8),
                            header_size,
                            color_entry_count: u16_le_at(b, off + 14),
                            paletted: b[off + 16],
                            mipmap_count: b[off + 17],
                            clut_format: b[off + 18],
                            bpp,
                            width: u16_le_at(b, off + 20),
                            height: u16_le_at(b, off + 22),
                            gs_tex_0: u64_le_at(b, off + 24),
                            gs_tex_1: u64_le_at(b, off + 32),
                            gs_regs: u32_le_at(b, off + 40),
                            gs_tex_clut: u32_le_at(b, off + 44),
                            user_data: b.subrange(off + 48, off + header_size as int),
                        };
                        if h.palette_size > 0 && h.bpp > 8 {
                            Err(Error::TrueColorAndPaletteFound)
                        } else if h.palette_size == 0 && h.bpp <= 8 {
                            Err(Error::TrueColorAndPaletteFound)
                        } else {
                            Ok((h, off + header_size as int))
                        }
                    }
                }
            },
        }
    }
}

impl Header {
    /// Parses the 48-byte header prefix at the cursor, then captures
    /// `header_size - 48` bytes of user data.
    pub fn read(buffer: &[u8], offset: &mut usize) -> (r: Result<Header, Error>)
        ensures
            match r {
                Ok(h) => header_spec(buffer@, *old(offset) as int) == Ok::<(HeaderV, int), Error>(
                    (h@, *final (offset) as int),
                ) && h@.wf(),
                Err(e) => header_spec(buffer@, *old(offset) as int) == Err::<
                    (HeaderV, int),
                    Error,
                >(e),
            },
    {
        proof {
            reveal(header_spec);
        }
        let total_size = read_u32_le(buffer, offset)?;
        let palette_size = read_u32_le(buffer, offset)?;
        let image_size = read_u32_le(buffer, offset)?;
        let header_size = read_u16_le(buffer, offset)?;
        let color_entry_count = read_u16_le(buffer, offset)?;
        let paletted = read_u8(buffer, offset)?;
        let mipmap_count = read_u8(buffer, offset)?;
        let clut_format = read_u8(buffer, offset)?;
        let bpp = Header::find_bpp(read_u8(buffer, offset)?)?;
        let width = read_u16_le(buffer, offset)?;
        let height = read_u16_le(buffer, offset)?;
        let gs_tex_0 = read_u64_le(buffer, offset)?;
        let gs_tex_1 = read_u64_le(buffer, offset)?;
        let gs_regs = read_u32_le(buffer, offset)?;
        let gs_tex_clut = read_u32_le(buffer, offset)?;
        if header_size < FRAME_HEADER_SIZE {
            return Err(Error::UnexpectedEndOfInput);
        }
        let user_data_size = (header_size - FRAME_HEADER_SIZE) as usize;
        let user_data = if user_data_size > 0 {
            let s = get_slice(buffer, offset, user_data_size)?;
            vstd::slice::slice_to_vec(s)
        } else {
            Vec::new()
        };
        let result = Header {
            total_size,
            palette_size,
            image_size,
            header_size,
            color_entry_count,
            paletted,
            mipmap_count,
            clut_format,
            bpp,
            width,
            height,
            gs_tex_0,
            gs_tex_1,
            gs_regs,
            gs_tex_clut,
            user_data,
        };
        if result.palette_size > 0 && result.bpp > 8 {
            Err(Error::TrueColorAndPaletteFound)
        } else if result.palette_size == 0 && result.bpp <= 8 {
            Err(Error::TrueColorAndPaletteFound)
        } else {
            proof {
                let b = buffer@;
                let off0 = *old(offset) as int;
                assert(header_spec(b, off0) is Ok);
                assert(header_spec(b, off0)->Ok_0.0 =~= result@);
            }
            Ok(result)
        }
    }

    /// Normalizes the header's bit-depth code to a depth in
    /// `{4, 8, 16, 24, 32}`.
    pub fn find_bpp(v: u8) -> (r: Result<u8, Error>)
        ensures
            r == find_bpp_spec(v),
    {
        match v {
            1 => Ok(16),
            2 => Ok(24),
            3 => Ok(32),
            4 => Ok(4),
            5 => Ok(8),
            n => Err(Error::InvalidBppFormat(n)),
        }
    }

    /// Whether the palettes of this frame are stored without the hardware's
    /// block/stripe permutation.
    pub fn is_linear_palette(&self) -> (r: bool)
        ensures
            r == self@.is_linear_palette(),
    {
        self.clut_format & 0x80 != 0
    }

    /// Bytes per color sample of this frame's palette or pixel data.
    pub fn color_size(&self) -> (r: usize)
        ensures
            r == self@.color_size(),
    {
        if self.bpp > 8 {
            (self.bpp / 8) as usize
        } else {
            (self.clut_format & 0x07) as usize + 1
        }
    }

    /// The frame's pixel format, from its normalized bit depth.
    pub fn pixel_format(&self) -> (r: Result<Format, Error>)
        ensures
            r == pixel_format_spec(self.bpp),
    {
        match self.bpp {
            4 => Ok(Format::Indexed4),
            8 => Ok(Format::Indexed8),
            16 => Ok(Format::Abgr1555),
            24 => Ok(Format::Rgb888),
            32 => Ok(Format::Rgba8888),
            n => Err(Error::InvalidBpp(n)),
        }
    }
}

/// What decoding a byte buffer into color samples of `cs` bytes yields.
///
/// Full samples are decoded in order; a trailing partial sample is
/// `UnexpectedEndOfInput`, and a sample size outside `{2, 3, 4}` is
/// `InvalidColorSampleSize` as soon as one full sample is present.
pub open spec fn colors_spec(s: Seq<u8>, cs: int) -> Result<Seq<Pixel>, Error>
    recommends
        1 <= cs,
{
    let n = s.len() as int;
    if 2 <= cs <= 4 {
        if n % cs == 0 {
            Ok(Seq::new((n / cs) as nat, |i: int| pixel_of(s.subrange(i * cs, (i + 1) * cs))))
        } else {
            Err(Error::UnexpectedEndOfInput)
        }
    } else if n == 0 {
        Ok(Seq::empty())
    } else if n < cs {
        Err(Error::UnexpectedEndOfInput)
    } else {
        Err(Error::InvalidColorSampleSize(cs as u8))
    }
}

/// Where palette entry `d` of a non-linear 8-bpp palette comes from: within
/// each 32-entry group, destination `block`/`stripe`/`color` coordinates
/// read from source offset `block * 8 + stripe * 16 + color`.
pub open spec fn lin_src(d: int) -> int {
    (d / 32) * 32 + ((d % 32) / 16) * 8 + ((d % 16) / 8) * 16 + d % 8
}

/// The block/stripe permutation undone: entries in complete 32-entry groups
/// are redistributed, a trailing partial group stays in place.
pub open spec fn linearize_spec(p: Seq<Pixel>) -> Seq<Pixel> {
    Seq::new(
        p.len(),
        |d: int|
            if d < (p.len() as int / 32) * 32 {
                p[lin_src(d)]
            } else {
                p[d]
            },
    )
}

/// `lin_src` stays inside the same 32-entry group as its argument.
proof fn lemma_lin_src_bounds(d: int)
    requires
        0 <= d,
    ensures
        (d / 32) * 32 <= lin_src(d) < (d / 32) * 32 + 32,
        lin_src(d) <= d + 31,
{
    vstd::arithmetic::div_mod::lemma_fundamental_div_mod(d, 32);
    vstd::arithmetic::div_mod::lemma_mod_pos_bound(d, 32);
    vstd::arithmetic::div_mod::lemma_mod_pos_bound(d, 16);
    vstd::arithmetic::div_mod::lemma_mod_pos_bound(d, 8);
    assert(0 <= (d % 32) / 16 <= 1) by {
        vstd::arithmetic::div_mod::lemma_mod_pos_bound(d, 32);
    }
    assert(0 <= (d % 16) / 8 <= 1) by {
        vstd::arithmetic::div_mod::lemma_mod_pos_bound(d, 16);
    }
}

/// A destination below the last complete 32-entry group reads from a source
/// that is in bounds.
proof fn lemma_lin_src_in_range(d: int, n: int)
    requires
        0 <= d < (n / 32) * 32,
    ensures
        0 <= lin_src(d) < n,
{
    lemma_lin_src_bounds(d);
    let q = n / 32;
    assert(d / 32 < q) by {
        vstd::arithmetic::div_mod::lemma_fundamental_div_mod(d, 32);
        vstd::arithmetic::div_mod::lemma_mod_pos_bound(d, 32);
        if d / 32 >= q {
            vstd::arithmetic::mul::lemma_mul_inequality(q, d / 32, 32);
        }
    }
    assert((d / 32) * 32 + 32 <= q * 32) by {
        vstd::arithmetic::mul::lemma_mul_inequality(d / 32 + 1, q, 32);
    }
    assert(q * 32 <= n) by {
        vstd::arithmetic::div_mod::lemma_fundamental_div_mod(n, 32);
        vstd::arithmetic::div_mod::lemma_mod_pos_bound(n, 32);
    }
}

/// How many 16-element-wide tiles cover one row of a `w`-element-wide frame.
pub open spec fn tiles_per_row(w: int) -> int {
    (w + 15) / 16
}

/// Where the element at frame coordinates `(tx, ty)` sits in the swizzled
/// stream: tiles are stored row-major, 128 elements each, and within a tile
/// the elements are row-major again.
pub open spec fn swizzle_src(tx: int, ty: int, w: int) -> int {
    ((ty / 8) * tiles_per_row(w) + tx / 16) * 128 + (ty % 8) * 16 + tx % 16
}

/// The 16x8 tile deinterleave.  The result has the length of the input;
/// element `d` of it is the swizzled-stream element of `d`'s frame
/// coordinates when that lies inside the input, else `fill` (a source index
/// past the input is tolerated, and elements of tiles that overhang the
/// frame's edge are dropped).
pub open spec fn unswizzle_spec<T>(s: Seq<T>, w: int, h: int, fill: T) -> Seq<T> {
    Seq::new(
        s.len(),
        |d: int|
            if w > 0 && d < w * h && swizzle_src(d % w, d / w, w) < s.len() {
                s[swizzle_src(d % w, d / w, w)]
            } else {
                fill
            },
    )
}

/// The two 4-bit indices packed in each byte, high nibble first.
pub open spec fn nibbles(s: Seq<u8>) -> Seq<u8> {
    Seq::new(
        2 * s.len(),
        |i: int|
            if i % 2 == 0 {
                s[i / 2] >> 4u8
            } else {
                s[i / 2] & 0x0Fu8
            },
    )
}

/// What decoding `image_size` payload bytes at `off` yields: the frame's
/// element grid and the offset just past the payload.
///
/// With a palette the payload is indices (two per byte at 4 bpp), else it
/// is true-color samples of `bpp / 8` bytes; either stream is deinterleaved
/// from the 16x8 tile order when the header asks for it.  A payload whose
/// element count differs from `width * height` is rejected with
/// `UnexpectedEndOfInput`: the decoded grid always covers the frame's
/// dimensions exactly.
#[verifier::opaque]
pub open spec fn data_spec(b: Seq<u8>, off: int, h: HeaderV) -> Result<(DataV, int), Error>
    recommends
        0 <= off,
        h.wf(),
{
    if !can_take(b.len() as int, off, h.image_size as int) {
        Err(Error::UnexpectedEndOfInput)
    } else {
        let raw = b.subrange(off, off + h.image_size);
        let end = off + h.image_size;
        if h.palette_size > 0 {
            let idx = if h.bpp == 4 {
                nibbles(raw)
            } else {
                raw
            };
            if idx.len() != h.width as int * h.height as int {
                Err(Error::UnexpectedEndOfInput)
            } else {
                let fin = if h.needs_unswizzle() {
                    unswizzle_spec(idx, h.width as int, h.height as int, 0u8)
                } else {
                    idx
                };
                Ok((DataV::Indices(fin), end))
            }
        } else {
            match colors_spec(raw, h.bpp as int / 8) {
                Err(e) => Err(e),
                Ok(px) => {
                    if px.len() != h.width as int * h.height as int {
                        Err(Error::UnexpectedEndOfInput)
                    } else {
                        let fin = if h.needs_unswizzle() {
                            unswizzle_spec(
                                px,
                                h.width as int,
                                h.height as int,
                                Pixel { r: 0, g: 0, b: 0, a: 0 },
                            )
                        } else {
                            px
                        };
                        Ok((DataV::Pixels(fin), end))
                    }
                },
            }
        }
    }
}

/// Palette `i` of a decoded palette block: `color_entry_count` samples of
/// `color_size` bytes, permuted out of block/stripe order for non-linear
/// 8-bpp frames.
pub open spec fn palette_at(s: Seq<u8>, h: HeaderV, i: int) -> Seq<Pixel> {
    let cs = h.color_size();
    let size = h.color_entry_count * cs;
    let pal = Seq::new(
        h.color_entry_count as nat,
        |j: int| pixel_of(s.subrange(i * size + j * cs, i * size + (j + 1) * cs)),
    );
    if h.bpp == 8 && !h.is_linear_palette() {
        linearize_spec(pal)
    } else {
        pal
    }
}

/// What decoding the palette block at `off` yields: one palette per
/// `color_entry_count * color_size` slice of the `palette_size`-byte
/// block, and the offset just past the block.  A frame without a palette
/// yields no palettes and leaves the offset alone.  The per-palette size
/// must divide `palette_size` exactly; a block with a remainder, or one
/// with `color_entry_count == 0`, is rejected with `UnexpectedEndOfInput`,
/// so a palette block never decodes to fewer bytes than it declares.
#[verifier::opaque]
pub open spec fn palettes_spec(b: Seq<u8>, off: int, h: HeaderV) -> Result<
    (Seq<Seq<Pixel>>, int),
    Error,
>
    recommends
        0 <= off,
{
    if h.palette_size == 0 {
        Ok((Seq::empty(), off))
    } else if !can_take(b.len() as int, off, h.palette_size as int) {
        Err(Error::UnexpectedEndOfInput)
    } else {
        let total = h.palette_size as int;
        let cs = h.color_size();
        let size = h.color_entry_count * cs;
        if size == 0 {
            Err(Error::UnexpectedEndOfInput)
        } else if total % size != 0 {
            Err(Error::UnexpectedEndOfInput)
        } else {
            let count = total / size;
            let slice = b.subrange(off, off + total);
            if !(2 <= cs <= 4) {
                Err(Error::InvalidColorSampleSize(cs as u8))
            } else {
                Ok((Seq::new(count as nat, |i: int| palette_at(slice, h, i)), off + total))
            }
        }
    }
}

/// A frame: its header, its pixel payload, and its (possibly empty) list of
/// palettes.
#[derive(Debug)]
pub struct Frame {
    pub header: Header,
    pub data: DataKind,
    pub palettes: Vec<PixelBuffer>,
}

/// The mathematical value of a [`Frame`].
#[verifier::ext_equal]
pub struct FrameV {
    pub header: HeaderV,
    pub data: DataV,
    pub palettes: Seq<Seq<Pixel>>,
}

impl View for Frame {
    type V = FrameV;

    open spec fn view(&self) -> FrameV {
        FrameV {
            header: self.header@,
            data: self.data@,
            palettes: self.palettes@.map_values(|p: PixelBuffer| p@),
        }
    }
}

/// What parsing a whole frame at `off` yields: header, then `image_size`
/// bytes of pixel data, then `palette_size` bytes of palettes.
#[verifier::opaque]
pub open spec fn frame_spec(b: Seq<u8>, off: int) -> Result<(FrameV, int), Error>
    recommends
        0 <= off,
{
    match header_spec(b, off) {
        Err(e) => Err(e),
        Ok((h, off1)) => match data_spec(b, off1, h) {
            Err(e) => Err(e),
            Ok((d, off2)) => match palettes_spec(b, off2, h) {
                Err(e) => Err(e),
                Ok((p, off3)) => Ok((FrameV { header: h, data: d, palettes: p }, off3)),
            },
        },
    }
}

/// The frame's pixel grid with palette indices resolved through palette 0;
/// a true-color frame's samples are returned as they are.
pub open spec fn frame_pixels_spec(f: FrameV) -> Seq<Pixel> {
    match f.data {
        DataV::Indices(v) => Seq::new(v.len(), |k: int| f.palettes[0][v[k] as int]),
        DataV::Pixels(p) => p,
    }
}

/// The alpha byte emitted for `p` under an optional color key: a pixel
/// equal to the key is forced transparent.
pub open spec fn raw_alpha(p: Pixel, key: Option<Pixel>) -> u8 {
    match key {
        Some(k) => if p == k {
            0
        } else {
            p.a
        },
        None => p.a,
    }
}

/// The tightly packed RGBA8888 bytes of a frame: four bytes per pixel in
/// `r`, `g`, `b`, alpha order, the alpha masked by the color key.
pub open spec fn to_raw_spec(f: FrameV, key: Option<Pixel>) -> Seq<u8> {
    let px = frame_pixels_spec(f);
    Seq::new(
        4 * px.len(),
        |j: int|
            {
                let p = px[j / 4];
                if j % 4 == 0 {
                    p.r
                } else if j % 4 == 1 {
                    p.g
                } else if j % 4 == 2 {
                    p.b
                } else {
                    raw_alpha(p, key)
                }
            },
    )
}

impl FrameV {
    /// What resolving indices through palette 0 needs: an indexed frame has
    /// at least one palette and no index reaches past it.  True of every
    /// well-formed TIM2 payload, but not enforced during parsing.
    pub open spec fn indices_ok(&self) -> bool {
        self.data is Indices ==> {
            &&& self.palettes.len() > 0
            &&& forall|k: int|
                0 <= k < self.data->Indices_0.len() ==> (self.data->Indices_0[k] as int)
                    < self.palettes[0].len()
        }
    }
}

impl Frame {
    /// Parses one frame at the cursor: header, pixel data, palettes.
    pub fn read(buffer: &[u8], offset: &mut usize) -> (r: Result<Frame, Error>)
        ensures
            match r {
                Ok(f) => frame_spec(buffer@, *old(offset) as int) == Ok::<(FrameV, int), Error>(
                    (f@, *final (offset) as int),
                ),
                Err(e) => frame_spec(buffer@, *old(offset) as int) == Err::<(FrameV, int), Error>(
                    e,
                ),
            },
    {
        proof {
            reveal(frame_spec);
        }
        let header = Header::read(buffer, offset)?;
        let data = Frame::read_data(buffer, offset, &header)?;
        let palettes = Frame::read_palettes(buffer, offset, &header)?;
        Ok(Frame { header, data, palettes })
    }

    /// Whether the frame carries more than one mipmap level.
    pub fn has_mipmaps(&self) -> (r: bool)
        ensures
            r == (self@.header.mipmap_count > 1),
    {
        self.header.mipmap_count > 1
    }

    /// The frame's width in pixels.
    pub fn width(&self) -> (r: usize)
        ensures
            r == self@.header.width,
    {
        self.header.width as usize
    }

    /// The frame's height in pixels.
    pub fn height(&self) -> (r: usize)
        ensures
            r == self@.header.height,
    {
        self.header.height as usize
    }

    /// The frame's pixel format, from its normalized bit depth.
    pub fn format(&self) -> (r: Result<Format, Error>)
        ensures
            r == pixel_format_spec(self@.header.bpp),
    {
        self.header.pixel_format()
    }

    /// The frame's decoded payload.
    pub fn data(&self) -> (r: &DataKind)
        ensures
            r@ == self@.data,
    {
        &self.data
    }

    /// The frame's decoded palettes, in the order they were stored.
    pub fn palettes(&self) -> (r: &Vec<PixelBuffer>)
        ensures
            r@.map_values(|p: PixelBuffer| p@) == self@.palettes,
    {
        &self.palettes
    }

    /// Whether palette resolution is defined for this frame: a true-color
    /// frame always, an indexed frame exactly when it has a palette and no
    /// index reaches past palette 0.  Callers check this before
    /// [`Frame::get_pixels`] or [`Frame::to_raw`]; parsing alone does not
    /// guarantee it.
    pub fn indices_valid(&self) -> (r: bool)
        ensures
            r == self@.indices_ok(),
    {
        match &self.data {
            DataKind::Indices(v) => {
                if self.palettes.len() == 0 {
                    return false;
                }
                let limit = self.palettes[0].len();
                let mut k: usize = 0;
                while k < v.len()
                    invariant
                        self@.data == DataV::Indices(v@),
                        self@.palettes.len() > 0,
                        limit == self@.palettes[0].len(),
                        k <= v@.len(),
                        forall|j: int| 0 <= j < k ==> (v@[j] as int) < limit,
                    decreases v@.len() - k,
                {
                    if v[k] as usize >= limit {
                        proof {
                            if self@.indices_ok() {
                                assert(self@.data->Indices_0 == v@);
                                assert((self@.data->Indices_0[k as int] as int) < self@.palettes[
                                0].len());
                            }
                        }
                        return false;
                    }
                    k = k + 1;
                }
                proof {
                    assert(self@.data->Indices_0 == v@);
                    assert forall|j: int| 0 <= j < self@.data->Indices_0.len() implies (
                    self@.data->Indices_0[j] as int) < self@.palettes[0].len() by {
                        assert((v@[j] as int) < limit);
                    }
                }
                true
            },
            DataKind::Pixels(_) => true,
        }
    }

    /// The frame's pixels, with palette indices resolved through palette 0.
    pub fn get_pixels(&self) -> (r: PixelBuffer)
        requires
            self@.indices_ok(),
        ensures
            r@ == frame_pixels_spec(self@),
    {
        match &self.data {
            DataKind::Indices(v) => {
                let palette = &self.palettes[0];
                let mut result: PixelBuffer = Vec::new();
                let mut k: usize = 0;
                while k < v.len()
                    invariant
                        self@.indices_ok(),
                        self@.data == DataV::Indices(v@),
                        self@.palettes.len() > 0,
                        palette@ == self@.palettes[0],
                        k <= v@.len(),
                        result@.len() == k,
                        forall|j: int|
                            0 <= j < k ==> result@[j] == self@.palettes[0][v@[j] as int],
                    decreases v@.len() - k,
                {
                    let idx = v[k] as usize;
                    proof {
                        assert(self@.data->Indices_0 == v@);
                        assert((v@[k as int] as int) < self@.palettes[0].len());
                    }
                    result.push(palette[idx]);
                    k = k + 1;
                }
                proof {
                    assert(result@ =~= frame_pixels_spec(self@));
                }
                result
            },
            DataKind::Pixels(v) => vstd::slice::slice_to_vec(v.as_slice()),
        }
    }

    /// The frame as tightly packed RGBA8888 bytes, four per pixel.  A pixel
    /// equal to `color_key`, when one is given, has its alpha forced to 0.
    pub fn to_raw(&self, color_key: Option<Pixel>) -> (r: Vec<u8>)
        requires
            self@.indices_ok(),
        ensures
            r@ == to_raw_spec(self@, color_key),
    {
        let pixels = self.get_pixels();
        let mut result: Vec<u8> = Vec::new();
        let mut k: usize = 0;
        while k < pixels.len()
            invariant
                pixels@ == frame_pixels_spec(self@),
                k <= pixels@.len(),
                result@.len() == 4 * k,
                forall|j: int|
                    0 <= j < 4 * k ==> result@[j] == to_raw_spec(self@, color_key)[j],
            decreases pixels@.len() - k,
        {
            let pixel = pixels[k];
            let alpha = if let Some(v) = color_key {
                if v != pixel {
                    pixel.a()
                } else {
                    0
                }
            } else {
                pixel.a()
            };
            result.push(pixel.r());
            result.push(pixel.g());
            result.push(pixel.b());
            result.push(alpha);
            proof {
                let kk = k as int;
                vstd::arithmetic::div_mod::lemma_fundamental_div_mod_converse(4 * kk, 4, kk, 0);
                vstd::arithmetic::div_mod::lemma_fundamental_div_mod_converse(
                    4 * kk + 1,
                    4,
                    kk,
                    1,
                );
                vstd::arithmetic::div_mod::lemma_fundamental_div_mod_converse(
                    4 * kk + 2,
                    4,
                    kk,
                    2,
                );
                vstd::arithmetic::div_mod::lemma_fundamental_div_mod_converse(
                    4 * kk + 3,
                    4,
                    kk,
                    3,
                );
            }
            k = k + 1;
        }
        proof {
            assert(result@ =~= to_raw_spec(self@, color_key));
        }
        result
    }

    /// Decodes a byte buffer into color samples of `color_size` bytes each.
    pub fn read_colors(buffer: &[u8], color_size: usize) -> (r: Result<PixelBuffer, Error>)
        requires
            1 <= color_size,
        ensures
            match r {
                Ok(v) => colors_spec(buffer@, color_size as int) == Ok::<Seq<Pixel>, Error>(v@),
                Err(e) => colors_spec(buffer@, color_size as int) == Err::<Seq<Pixel>, Error>(e),
            },
    {
        let cs = color_size;
        let mut off: usize = 0;
        let mut result: PixelBuffer = Vec::new();
        proof {
            vstd::arithmetic::mul::lemma_mul_by_zero_is_zero(cs as int);
        }
        while off < buffer.len()
            invariant
                1 <= cs,
                cs == color_size,
                off <= buffer@.len(),
                result@.len() * cs == off,
                forall|i: int|
                    0 <= i < result@.len() ==> result@[i] == pixel_of(
                        #[trigger] buffer@.subrange(i * cs, (i + 1) * cs),
                    ),
                !(2 <= cs <= 4) ==> off == 0,
            decreases buffer@.len() - off,
        {
            if buffer.len() - off < cs {
                proof {
                    let n = buffer@.len() as int;
                    if 2 <= cs <= 4 {
                        vstd::arithmetic::div_mod::lemma_fundamental_div_mod_converse(
                            n,
                            cs as int,
                            result@.len() as int,
                            n - off,
                        );
                    }
                }
                return Err(Error::UnexpectedEndOfInput);
            }
            let s = vstd::slice::slice_subrange(buffer, off, off + cs);
            let p = match Pixel::from_buf(s) {
                Ok(p) => p,
                Err(e) => {
                    return Err(e);
                },
            };
            result.push(p);
            proof {
                let k = result@.len() - 1;
                assert(k * cs == off);
                assert((k + 1) * cs == off + cs) by {
                    vstd::arithmetic::mul::lemma_mul_is_distributive_add_other_way(
                        cs as int,
                        k,
                        1,
                    );
                }
                assert(result@[k] == pixel_of(buffer@.subrange(k * cs, (k + 1) * cs)));
            }
            off = off + cs;
        }
        proof {
            let n = buffer@.len() as int;
            if 2 <= cs <= 4 {
                vstd::arithmetic::div_mod::lemma_fundamental_div_mod_converse(
                    n,
                    cs as int,
                    result@.len() as int,
                    0,
                );
                let expected = Seq::new(
                    (n / cs as int) as nat,
                    |i: int| pixel_of(buffer@.subrange(i * cs, (i + 1) * cs)),
                );
                assert(result@ =~= expected);
            } else {
                assert(result@.len() == 0) by {
                    if result@.len() > 0 {
                        vstd::arithmetic::mul::lemma_mul_inequality(
                            1,
                            result@.len() as int,
                            cs as int,
                        );
                    }
                }
                assert(result@ =~= Seq::<Pixel>::empty());
            }
        }
        Ok(result)
    }

    /// Decodes the frame's `image_size`-byte payload at the cursor into the
    /// element grid.
    pub fn read_data(buffer: &[u8], offset: &mut usize, header: &Header) -> (r: Result<
        DataKind,
        Error,
    >)
        requires
            header@.wf(),
        ensures
            match r {
                Ok(d) => data_spec(buffer@, *old(offset) as int, header@) == Ok::<
                    (DataV, int),
                    Error,
                >((d@, *final (offset) as int)),
                Err(e) => data_spec(buffer@, *old(offset) as int, header@) == Err::<
                    (DataV, int),
                    Error,
                >(e),
            },
    {
        proof {
            reveal(data_spec);
        }
        let size = header.image_size as usize;
        let slice = get_slice(buffer, offset, size)?;
        if header.palette_size > 0 {
            let data: Vec<u8> = if header.bpp == 4 {
                let mut out: Vec<u8> = Vec::new();
                let mut i: usize = 0;
                while i < slice.len()
                    invariant
                        i <= slice@.len(),
                        out@.len() == 2 * i,
                        forall|j: int| 0 <= j < out@.len() ==> out@[j] == nibbles(slice@)[j],
                    decreases slice@.len() - i,
                {
                    let byte = slice[i];
                    out.push(byte >> 4);
                    out.push(byte & 0x0F);
                    proof {
                        let ii = i as int;
                        vstd::arithmetic::div_mod::lemma_fundamental_div_mod_converse(
                            2 * ii,
                            2,
                            ii,
                            0,
                        );
                        vstd::arithmetic::div_mod::lemma_fundamental_div_mod_converse(
                            2 * ii + 1,
                            2,
                            ii,
                            1,
                        );
                    }
                    i = i + 1;
                }
                proof {
                    assert(out@ =~= nibbles(slice@));
                }
                out
            } else {
                vstd::slice::slice_to_vec(slice)
            };
            proof {
                vstd::arithmetic::mul::lemma_mul_upper_bound(
                    header@.width as int,
                    0xFFFF,
                    header@.height as int,
                    0xFFFF,
                );
                vstd::arithmetic::mul::lemma_mul_nonnegative(
                    header@.width as int,
                    header@.height as int,
                );
            }
            if (data.len() as u64) != (header.width as u64) * (header.height as u64) {
                return Err(Error::UnexpectedEndOfInput);
            }
            let raw = if header.gs_tex_0 & (1u64 << 55) != 0 {
                Frame::unswizzle(&data, 0u8, header)
            } else {
                data
            };
            Ok(DataKind::Indices(raw))
        } else {
            let pixel_size = (header.bpp / 8) as usize;
            let colors = Frame::read_colors(slice, pixel_size)?;
            proof {
                vstd::arithmetic::mul::lemma_mul_upper_bound(
                    header@.width as int,
                    0xFFFF,
                    header@.height as int,
                    0xFFFF,
                );
                vstd::arithmetic::mul::lemma_mul_nonnegative(
                    header@.width as int,
                    header@.height as int,
                );
            }
            if (colors.len() as u64) != (header.width as u64) * (header.height as u64) {
                return Err(Error::UnexpectedEndOfInput);
            }
            let raw = if header.gs_tex_0 & (1u64 << 55) != 0 {
                Frame::unswizzle(&colors, Pixel::new(0, 0, 0, 0), header)
            } else {
                colors
            };
            Ok(DataKind::Pixels(raw))
        }
    }

    /// Decodes the frame's `palette_size`-byte palette block at the cursor.
    pub fn read_palettes(buffer: &[u8], offset: &mut usize, header: &Header) -> (r: Result<
        Vec<PixelBuffer>,
        Error,
    >)
        ensures
            match r {
                Ok(v) => palettes_spec(buffer@, *old(offset) as int, header@) == Ok::<
                    (Seq<Seq<Pixel>>, int),
                    Error,
                >((v@.map_values(|p: PixelBuffer| p@), *final (offset) as int)),
                Err(e) => palettes_spec(buffer@, *old(offset) as int, header@) == Err::<
                    (Seq<Seq<Pixel>>, int),
                    Error,
                >(e),
            },
    {
        proof {
            reveal(palettes_spec);
        }
        if header.palette_size == 0 {
            let empty: Vec<PixelBuffer> = Vec::new();
            proof {
                assert(empty@.map_values(|p: PixelBuffer| p@) =~= Seq::<Seq<Pixel>>::empty());
            }
            return Ok(empty);
        }
        let total_size = header.palette_size as usize;
        let slice = get_slice(buffer, offset, total_size)?;
        let color_size = header.color_size();
        proof {
            let cf = header@.clut_format;
            assert(cf & 0x07u8 <= 7) by (bit_vector);
            assert(1 <= header@.color_size() <= 31);
            vstd::arithmetic::mul::lemma_mul_upper_bound(
                header@.color_entry_count as int,
                0xFFFF,
                header@.color_size(),
                31,
            );
            vstd::arithmetic::mul::lemma_mul_nonnegative(
                header@.color_entry_count as int,
                header@.color_size(),
            );
        }
        let size = header.color_entry_count as usize * color_size;
        if size == 0 {
            return Err(Error::UnexpectedEndOfInput);
        }
        if total_size % size != 0 {
            return Err(Error::UnexpectedEndOfInput);
        }
        let count = total_size / size;
        proof {
            vstd::arithmetic::div_mod::lemma_fundamental_div_mod(total_size as int, size as int);
            vstd::arithmetic::div_mod::lemma_mod_pos_bound(total_size as int, size as int);
            vstd::arithmetic::mul::lemma_mul_is_commutative(size as int, count as int);
        }
        if color_size < 2 || color_size > 4 {
            return Err(Error::InvalidColorSampleSize(color_size as u8));
        }
        let mut result: Vec<PixelBuffer> = Vec::new();
        let mut i: usize = 0;
        while i < count
            invariant
                1 <= color_size == header@.color_size() <= 31,
                size == header@.color_entry_count * header@.color_size(),
                0 < size <= usize::MAX,
                count == header@.palette_size as int / size as int,
                header@.palette_size as int % (size as int) == 0,
                header@.palette_size > 0,
                can_take(buffer@.len() as int, *old(offset) as int, header@.palette_size as int),
                slice@ == buffer@.subrange(
                    *old(offset) as int,
                    *old(offset) + header@.palette_size,
                ),
                header@.palette_size == slice@.len(),
                size * count <= slice@.len(),
                i <= count,
                result@.len() == i,
                2 <= color_size <= 4,
                forall|k: int| 0 <= k < i ==> #[trigger] result@[k]@ == palette_at(
                    slice@,
                    header@,
                    k,
                ),
            decreases count - i,
        {
            proof {
                vstd::arithmetic::mul::lemma_mul_inequality(i + 1, count as int, size as int);
                vstd::arithmetic::mul::lemma_mul_is_distributive_add_other_way(
                    size as int,
                    i as int,
                    1,
                );
                vstd::arithmetic::mul::lemma_mul_is_commutative(size as int, count as int);
                vstd::arithmetic::mul::lemma_mul_is_commutative(size as int, i as int);
                vstd::arithmetic::mul::lemma_mul_nonnegative(size as int, i as int);
            }
            let start_index = size * i;
            let end_index = start_index + size;
            let data = vstd::slice::slice_subrange(slice, start_index, end_index);
            proof {
                vstd::arithmetic::div_mod::lemma_mod_multiples_basic(
                    header@.color_entry_count as int,
                    header@.color_size(),
                );
            }
            let mut palette = match Frame::read_colors(data, color_size) {
                Ok(p) => p,
                Err(e) => {
                    // A full per-palette slice is a whole number of samples
                    // of a size the codec accepts, so decoding it cannot
                    // fail.
                    proof {
                        assert(false);
                    }
                    return Err(e);
                },
            };
            let ghost pal0 = Seq::new(
                header@.color_entry_count as nat,
                |j: int|
                    pixel_of(
                        slice@.subrange(
                            i as int * (header@.color_entry_count * header@.color_size()) + j
                                * header@.color_size(),
                            i as int * (header@.color_entry_count * header@.color_size()) + (j + 1)
                                * header@.color_size(),
                        ),
                    ),
            );
            proof {
                let cs = header@.color_size();
                let cec = header@.color_entry_count as int;
                vstd::arithmetic::div_mod::lemma_div_by_multiple(cec, cs);
                assert(palette@.len() == cec);
                assert forall|j: int| 0 <= j < cec implies palette@[j] == pal0[j] by {
                    vstd::arithmetic::mul::lemma_mul_inequality(j + 1, cec, cs);
                    vstd::arithmetic::mul::lemma_mul_is_distributive_add_other_way(cs, j, 1);
                    vstd::arithmetic::mul::lemma_mul_nonnegative(j, cs);
                    assert(palette@[j] == pixel_of(data@.subrange(j * cs, (j + 1) * cs)));
                    assert(data@.subrange(j * cs, (j + 1) * cs) =~= slice@.subrange(
                        i as int * (size as int) + j * cs,
                        i as int * (size as int) + (j + 1) * cs,
                    ));
                }
                assert(palette@ =~= pal0);
            }
            if !header.is_linear_palette() && header.bpp == 8 {
                Frame::linearize_palette(&mut palette);
                proof {
                    assert(palette@ == linearize_spec(pal0));
                }
            }
            result.push(palette);
            proof {
                assert(result@[i as int]@ == palette_at(slice@, header@, i as int));
            }
            i = i + 1;
        }
        proof {
            let spec_result = Seq::new(count as nat, |k: int| palette_at(slice@, header@, k));
            assert(result@.map_values(|p: PixelBuffer| p@) =~= spec_result);
        }
        Ok(result)
    }

    /// Restores scan-line order from the hardware's 16x8 tile layout.
    ///
    /// `fill` stands in for elements the swizzled stream does not supply;
    /// the hardware zero-initializes them.
    pub fn unswizzle<T: Copy>(buffer: &Vec<T>, fill: T, header: &Header) -> (r: Vec<T>)
        ensures
            r@ == unswizzle_spec(buffer@, header@.width as int, header@.height as int, fill),
    {
        let w = header.width as usize;
        let h = header.height as usize;
        let mut result: Vec<T> = Vec::new();
        let mut k: usize = 0;
        while k < buffer.len()
            invariant
                k <= buffer@.len(),
                result@.len() == k,
                forall|j: int| 0 <= j < k ==> result@[j] == fill,
            decreases buffer@.len() - k,
        {
            result.push(fill);
            k = k + 1;
        }
        if w == 0 {
            proof {
                assert(result@ =~= unswizzle_spec(
                    buffer@,
                    header@.width as int,
                    header@.height as int,
                    fill,
                ));
            }
            return result;
        }
        let tpr = (w + 15) / 16;
        let mut d: usize = 0;
        while d < result.len()
            invariant
                0 < w <= 0xFFFF,
                h <= 0xFFFF,
                w == header@.width,
                h == header@.height,
                tpr == tiles_per_row(w as int),
                result@.len() == buffer@.len(),
                d <= result@.len(),
                forall|j: int|
                    0 <= j < d ==> result@[j] == unswizzle_spec(
                        buffer@,
                        w as int,
                        h as int,
                        fill,
                    )[j],
                forall|j: int| d <= j < result@.len() ==> result@[j] == fill,
            decreases result@.len() - d,
        {
            proof {
                vstd::arithmetic::mul::lemma_mul_upper_bound(w as int, 0xFFFF, h as int, 0xFFFF);
                vstd::arithmetic::mul::lemma_mul_nonnegative(w as int, h as int);
            }
            if (d as u64) < (w as u64) * (h as u64) {
                let tx = d % w;
                let ty = d / w;
                proof {
                    vstd::arithmetic::div_mod::lemma_mod_pos_bound(d as int, w as int);
                    vstd::arithmetic::div_mod::lemma_multiply_divide_lt(
                        d as int,
                        w as int,
                        h as int,
                    );
                    vstd::arithmetic::mul::lemma_mul_upper_bound(
                        ty as int / 8,
                        0x1FFF,
                        tpr as int,
                        0x1000,
                    );
                }
                let src: u64 = ((ty as u64 / 8) * (tpr as u64) + (tx as u64 / 16)) * 128 + (
                ty as u64 % 8) * 16 + (tx as u64 % 16);
                if src < buffer.len() as u64 {
                    let value = buffer[src as usize];
                    result.set(d, value);
                }
            }
            d = d + 1;
        }
        proof {
            assert(result@ =~= unswizzle_spec(
                buffer@,
                header@.width as int,
                header@.height as int,
                fill,
            ));
        }
        result
    }

    /// Undoes the hardware's block/stripe CLUT storage order in place.
    pub fn linearize_palette(palette: &mut PixelBuffer)
        ensures
            final (palette)@ == linearize_spec(old(palette)@),
    {
        let part_count = palette.len() / 32;
        let n = part_count * 32;
        proof {
            assert(n <= palette@.len()) by {
                vstd::arithmetic::div_mod::lemma_fundamental_div_mod(palette@.len() as int, 32);
                vstd::arithmetic::div_mod::lemma_mod_pos_bound(palette@.len() as int, 32);
            }
        }
        let mut original: PixelBuffer = Vec::new();
        let mut j: usize = 0;
        while j < palette.len()
            invariant
                j <= palette@.len(),
                palette@ == old(palette)@,
                original@ == palette@.take(j as int),
            decreases palette@.len() - j,
        {
            let p = palette[j];
            original.push(p);
            j = j + 1;
            proof {
                assert(original@ =~= palette@.take(j as int));
            }
        }
        proof {
            assert(original@ =~= old(palette)@);
        }
        let mut d: usize = 0;
        while d < n
            invariant
                n == (old(palette)@.len() as int / 32) * 32,
                n <= palette@.len(),
                d <= n,
                original@ == old(palette)@,
                palette@.len() == old(palette)@.len(),
                forall|k: int| 0 <= k < d ==> palette@[k] == linearize_spec(old(palette)@)[k],
                forall|k: int| d <= k < palette@.len() ==> palette@[k] == old(palette)@[k],
            decreases n - d,
        {
            proof {
                lemma_lin_src_in_range(d as int, palette@.len() as int);
                lemma_lin_src_bounds(d as int);
            }
            let part = d / 32;
            let block = (d % 32) / 16;
            let stripe = (d % 16) / 8;
            let color = d % 8;
            let src = part * 32 + block * 8 + stripe * 16 + color;
            let value = original[src];
            palette.set(d, value);
            d = d + 1;
        }
        proof {
            assert(palette@ =~= linearize_spec(old(palette)@));
        }
    }
}

} // verus!
