//! The decoder's global guarantees, stated and proved over the parse
//! specifications: what every successfully decoded image satisfies.

use vstd::prelude::*;

use crate::error::Error;
use crate::frame::FrameV;
use crate::frame::HeaderV;
use crate::frame::data_spec;
use crate::frame::frame_pixels_spec;
use crate::frame::frame_spec;
use crate::frame::header_spec;
use crate::frame::palettes_spec;
use crate::frame::pixel_format_spec;
use crate::frame::to_raw_spec;
use crate::image::ImageV;
use crate::image::frames_spec;
use crate::image::image_spec;
use crate::pixel::Format;
use crate::pixel::Pixel;

verus! {

/// What every frame of a successfully decoded image satisfies.
pub open spec fn frame_parsed_wf(f: FrameV) -> bool {
    &&& f.header.wf()
    &&& f.data.len() == f.header.width as int * f.header.height as int
    &&& (f.data is Indices <==> f.header.palette_size > 0)
    &&& f.palettes.len() * (f.header.color_entry_count as int * f.header.color_size())
        == f.header.palette_size
    &&& (f.header.palette_size > 0 ==> f.header.color_entry_count as int
        * f.header.color_size() > 0)
    &&& forall|i: int|
        0 <= i < f.palettes.len() ==> (#[trigger] f.palettes[i]).len()
            == f.header.color_entry_count
}

/// A successfully parsed frame is well-formed: its header passed every
/// check, its element grid covers `width * height` exactly, it is indexed
/// exactly when it has a palette block, its palettes account for every
/// byte of `palette_size`, and every palette holds `color_entry_count`
/// entries.
pub proof fn lemma_frame_parsed(b: Seq<u8>, off: int, f: FrameV, end: int)
    requires
        0 <= off,
        frame_spec(b, off) == Ok::<(FrameV, int), Error>((f, end)),
    ensures
        frame_parsed_wf(f),
        off <= end,
{
    reveal(frame_spec);
    reveal(header_spec);
    reveal(data_spec);
    reveal(palettes_spec);
    let h = f.header;
    let off1 = header_spec(b, off)->Ok_0.1;
    assert(h.wf());
    assert(data_spec(b, off1, h) is Ok);
    let d = data_spec(b, off1, h)->Ok_0.0;
    assert(d == f.data);
    let off2 = data_spec(b, off1, h)->Ok_0.1;
    assert(f.data.len() == h.width as int * h.height as int);
    assert(palettes_spec(b, off2, h) is Ok);
    assert(f.palettes == palettes_spec(b, off2, h)->Ok_0.0);
    let s = h.color_entry_count as int * h.color_size();
    if h.palette_size > 0 {
        vstd::arithmetic::mul::lemma_mul_nonnegative(h.color_entry_count as int, h.color_size());
        assert(s != 0);
        vstd::arithmetic::div_mod::lemma_div_pos_is_pos(h.palette_size as int, s);
        vstd::arithmetic::div_mod::lemma_fundamental_div_mod(h.palette_size as int, s);
        assert(f.palettes.len() == h.palette_size as int / s);
        assert(f.palettes.len() * s == h.palette_size);
    } else {
        vstd::arithmetic::mul::lemma_mul_by_zero_is_zero(s);
        assert(f.palettes.len() * s == h.palette_size);
    }
    assert forall|i: int| 0 <= i < f.palettes.len() implies (#[trigger] f.palettes[i]).len()
        == h.color_entry_count by {
        assert(f.palettes[i] == crate::frame::palette_at(
            b.subrange(off2, off2 + h.palette_size),
            h,
            i,
        ));
    }
}

/// Every frame of a successfully parsed frame sequence is well-formed, and
/// the sequence holds exactly the requested number of frames.
pub proof fn lemma_frames_parsed(b: Seq<u8>, off: int, n: int, fs: Seq<FrameV>, end: int)
    requires
        0 <= off,
        0 <= n,
        frames_spec(b, off, n) == Ok::<(Seq<FrameV>, int), Error>((fs, end)),
    ensures
        fs.len() == n,
        forall|i: int| 0 <= i < fs.len() ==> frame_parsed_wf(#[trigger] fs[i]),
    decreases n,
{
    if n > 0 {
        let f = frame_spec(b, off)->Ok_0.0;
        let off1 = frame_spec(b, off)->Ok_0.1;
        lemma_frame_parsed(b, off, f, off1);
        let rest = frames_spec(b, off1, n - 1)->Ok_0.0;
        let end2 = frames_spec(b, off1, n - 1)->Ok_0.1;
        lemma_frames_parsed(b, off1, n - 1, rest, end2);
        assert(fs == seq![f] + rest);
        assert(fs[0] == f);
        assert(forall|i: int| 1 <= i < fs.len() ==> fs[i] == rest[i - 1]);
    }
}

/// A successfully decoded image holds exactly as many frames as its header
/// declares, and each is well-formed.
pub proof fn lemma_image_parsed(b: Seq<u8>, img: ImageV)
    requires
        image_spec(b) == Ok::<ImageV, Error>(img),
    ensures
        img.frames.len() == img.header.count,
        forall|i: int| 0 <= i < img.frames.len() ==> frame_parsed_wf(#[trigger] img.frames[i]),
{
    let h = crate::image::image_header_spec(b, 0)->Ok_0.0;
    let off1 = crate::image::image_header_spec(b, 0)->Ok_0.1;
    let fs = frames_spec(b, off1, h.count as int)->Ok_0.0;
    let end = frames_spec(b, off1, h.count as int)->Ok_0.1;
    lemma_frames_parsed(b, off1, h.count as int, fs, end);
}

/// Every frame of a successfully decoded image holds exactly
/// `width * height` elements: index bytes for an indexed frame, pixels for
/// a true-color one.
pub proof fn lemma_frame_data_len(b: Seq<u8>, img: ImageV, i: int)
    requires
        image_spec(b) == Ok::<ImageV, Error>(img),
        0 <= i < img.frames.len(),
    ensures
        img.frames[i].data.len() == img.frames[i].header.width as int
            * img.frames[i].header.height as int,
{
    lemma_image_parsed(b, img);
}

/// Every palette of a successfully decoded frame holds exactly
/// `color_entry_count` entries.
pub proof fn lemma_palette_len(b: Seq<u8>, img: ImageV, i: int, j: int)
    requires
        image_spec(b) == Ok::<ImageV, Error>(img),
        0 <= i < img.frames.len(),
        0 <= j < img.frames[i].palettes.len(),
    ensures
        img.frames[i].palettes[j].len() == img.frames[i].header.color_entry_count,
{
    lemma_image_parsed(b, img);
}

/// The decoded palette count times the per-palette byte size gives back
/// exactly `palette_size`: the palette block always divides evenly, a
/// block with a remainder never parses.
pub proof fn lemma_palette_sizes(b: Seq<u8>, img: ImageV, i: int)
    requires
        image_spec(b) == Ok::<ImageV, Error>(img),
        0 <= i < img.frames.len(),
    ensures
        img.frames[i].palettes.len() * (img.frames[i].header.color_entry_count as int
            * img.frames[i].header.color_size()) == img.frames[i].header.palette_size,
{
    lemma_image_parsed(b, img);
}

/// The raw RGBA buffer holds four bytes per resolved pixel, and one
/// resolved pixel per data element.
pub proof fn lemma_to_raw_len(f: FrameV, key: Option<Pixel>)
    ensures
        to_raw_spec(f, key).len() == 4 * frame_pixels_spec(f).len(),
        frame_pixels_spec(f).len() == f.data.len(),
{
}

/// Every frame of a successfully decoded image materializes into exactly
/// `width * height * 4` raw bytes.
pub proof fn lemma_to_raw_dimensions(b: Seq<u8>, img: ImageV, i: int)
    requires
        image_spec(b) == Ok::<ImageV, Error>(img),
        0 <= i < img.frames.len(),
    ensures
        to_raw_spec(img.frames[i], None).len() == 4 * (img.frames[i].header.width as int
            * img.frames[i].header.height as int),
{
    lemma_frame_data_len(b, img, i);
    lemma_to_raw_len(img.frames[i], None);
}

/// Group `k` of four raw bytes is exactly pixel `k` of the resolved pixel
/// grid, in `r`, `g`, `b`, `a` order, when no color key is given.
pub proof fn lemma_to_raw_groups(f: FrameV, k: int)
    requires
        0 <= k < frame_pixels_spec(f).len(),
    ensures
        to_raw_spec(f, None).len() == 4 * frame_pixels_spec(f).len(),
        to_raw_spec(f, None)[4 * k] == frame_pixels_spec(f)[k].r,
        to_raw_spec(f, None)[4 * k + 1] == frame_pixels_spec(f)[k].g,
        to_raw_spec(f, None)[4 * k + 2] == frame_pixels_spec(f)[k].b,
        to_raw_spec(f, None)[4 * k + 3] == frame_pixels_spec(f)[k].a,
{
    vstd::arithmetic::div_mod::lemma_fundamental_div_mod_converse(4 * k, 4, k, 0);
    vstd::arithmetic::div_mod::lemma_fundamental_div_mod_converse(4 * k + 1, 4, k, 1);
    vstd::arithmetic::div_mod::lemma_fundamental_div_mod_converse(4 * k + 2, 4, k, 2);
    vstd::arithmetic::div_mod::lemma_fundamental_div_mod_converse(4 * k + 3, 4, k, 3);
}

/// On every frame of a successfully decoded image, for every cell `k` of
/// its `width * height` grid, raw byte group `k` is exactly resolved pixel
/// `k` in `r`, `g`, `b`, `a` order when no color key is given.
pub proof fn lemma_to_raw_groups_parsed(b: Seq<u8>, img: ImageV, i: int, k: int)
    requires
        image_spec(b) == Ok::<ImageV, Error>(img),
        0 <= i < img.frames.len(),
        0 <= k < img.frames[i].header.width as int * img.frames[i].header.height as int,
    ensures
        to_raw_spec(img.frames[i], None).len() == 4 * (img.frames[i].header.width as int
            * img.frames[i].header.height as int),
        to_raw_spec(img.frames[i], None)[4 * k] == frame_pixels_spec(img.frames[i])[k].r,
        to_raw_spec(img.frames[i], None)[4 * k + 1] == frame_pixels_spec(img.frames[i])[k].g,
        to_raw_spec(img.frames[i], None)[4 * k + 2] == frame_pixels_spec(img.frames[i])[k].b,
        to_raw_spec(img.frames[i], None)[4 * k + 3] == frame_pixels_spec(img.frames[i])[k].a,
{
    lemma_frame_data_len(b, img, i);
    lemma_to_raw_len(img.frames[i], None);
    lemma_to_raw_groups(img.frames[i], k);
}

/// Decoding is deterministic: the same bytes give the same image value,
/// and therefore (through the contracts of `parse` and `Frame::to_raw`)
/// two decodes of one input yield byte-identical raw output.
pub proof fn lemma_parse_deterministic(b1: Seq<u8>, b2: Seq<u8>)
    requires
        b1 == b2,
    ensures
        image_spec(b1) == image_spec(b2),
        forall|i: int, key: Option<Pixel>|
            image_spec(b1) is Ok && 0 <= i < image_spec(b1)->Ok_0.frames.len()
                ==> #[trigger] to_raw_spec(image_spec(b1)->Ok_0.frames[i], key) == to_raw_spec(
                image_spec(b2)->Ok_0.frames[i],
                key,
            ),
{
}

/// The color key masks exactly the matching pixels: the alpha byte of raw
/// group `k` is 0 when pixel `k` equals the key, and the pixel's own alpha
/// otherwise.
pub proof fn lemma_color_key(f: FrameV, p: Pixel, k: int)
    requires
        0 <= k < frame_pixels_spec(f).len(),
    ensures
        to_raw_spec(f, Some(p))[4 * k + 3] == (if frame_pixels_spec(f)[k] == p {
            0u8
        } else {
            frame_pixels_spec(f)[k].a
        }),
        frame_pixels_spec(f)[k] == p ==> to_raw_spec(f, Some(p))[4 * k + 3] == 0,
{
    vstd::arithmetic::div_mod::lemma_fundamental_div_mod_converse(4 * k + 3, 4, k, 3);
}

/// An `Indexed4` frame of a successfully decoded image carries 4 as its
/// normalized bit depth and at least one palette.
pub proof fn lemma_indexed4_has_palette(b: Seq<u8>, img: ImageV, i: int)
    requires
        image_spec(b) == Ok::<ImageV, Error>(img),
        0 <= i < img.frames.len(),
        pixel_format_spec(img.frames[i].header.bpp) == Ok::<Format, Error>(Format::Indexed4),
    ensures
        img.frames[i].header.bpp == 4,
        img.frames[i].palettes.len() >= 1,
{
    lemma_image_parsed(b, img);
    let h = img.frames[i].header;
    let s = h.color_entry_count as int * h.color_size();
    assert(h.bpp == 4);
    assert(h.palette_size > 0);
    if img.frames[i].palettes.len() == 0 {
        vstd::arithmetic::mul::lemma_mul_by_zero_is_zero(s);
        assert(false);
    }
}

/// A decoded frame with a palette block has a positive per-palette byte
/// size: a block with `color_entry_count == 0` never parses.
pub proof fn lemma_parsed_palette_block_nonempty(b: Seq<u8>, img: ImageV, i: int)
    requires
        image_spec(b) == Ok::<ImageV, Error>(img),
        0 <= i < img.frames.len(),
        img.frames[i].header.palette_size > 0,
    ensures
        img.frames[i].header.color_entry_count as int * img.frames[i].header.color_size() > 0,
{
    lemma_image_parsed(b, img);
}

} // verus!
