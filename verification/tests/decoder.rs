use tim2::Error;
use tim2::Format;
use tim2::Pixel;
use tim2::parse;

/// Builds a TIM2 container around the given encoded frames.
fn container(frames: &[Vec<u8>]) -> Vec<u8> {
    let mut b = vec![0x54, 0x49, 0x4D, 0x32]; // "TIM2", big-endian
    b.extend_from_slice(&4u16.to_le_bytes()); // version
    b.extend_from_slice(&(frames.len() as u16).to_le_bytes());
    b.extend_from_slice(&[0u8; 8]); // reserved
    for f in frames {
        b.extend_from_slice(f);
    }
    b
}

/// Builds one encoded frame: a 48-byte header, then the pixel payload,
/// then the palette block.
#[allow(clippy::too_many_arguments)]
fn frame(
    palette_size: u32,
    cec: u16,
    clut_format: u8,
    bpp_code: u8,
    width: u16,
    height: u16,
    gs_tex_0: u64,
    payload: &[u8],
    palette: &[u8],
) -> Vec<u8> {
    let image_size = payload.len() as u32;
    let total_size = 48 + image_size + palette_size;
    let mut b = Vec::new();
    b.extend_from_slice(&total_size.to_le_bytes());
    b.extend_from_slice(&palette_size.to_le_bytes());
    b.extend_from_slice(&image_size.to_le_bytes());
    b.extend_from_slice(&48u16.to_le_bytes()); // header_size
    b.extend_from_slice(&cec.to_le_bytes());
    b.push(if palette_size > 0 { 1 } else { 0 }); // paletted (unused)
    b.push(0); // mipmap_count
    b.push(clut_format);
    b.push(bpp_code);
    b.extend_from_slice(&width.to_le_bytes());
    b.extend_from_slice(&height.to_le_bytes());
    b.extend_from_slice(&gs_tex_0.to_le_bytes());
    b.extend_from_slice(&0u64.to_le_bytes()); // gs_tex_1
    b.extend_from_slice(&0u32.to_le_bytes()); // gs_regs
    b.extend_from_slice(&0u32.to_le_bytes()); // gs_tex_clut
    b.extend_from_slice(payload);
    b.extend_from_slice(palette);
    b
}

/// A 2x2 32-bpp true-color frame: red, green, blue, white.
fn true_color_2x2() -> Vec<u8> {
    let payload = [
        0xFF, 0x00, 0x00, 0xFF, // red
        0x00, 0xFF, 0x00, 0xFF, // green
        0x00, 0x00, 0xFF, 0xFF, // blue
        0xFF, 0xFF, 0xFF, 0xFF, // white
    ];
    container(&[frame(0, 0, 0, 3, 2, 2, 0, &payload, &[])])
}

#[test]
fn magic_rejection() {
    let data = [0u8; 32];
    assert_eq!(parse(&data).unwrap_err(), Error::InvalidIdentifier(0));
}

#[test]
fn magic_rejection_reports_value() {
    let mut data = container(&[]);
    data[3] = 0x33; // "TIM3"
    assert_eq!(parse(&data).unwrap_err(), Error::InvalidIdentifier(0x54494D33));
}

#[test]
fn short_input_is_end_of_input_even_with_bad_magic() {
    let data = [0u8; 8];
    assert_eq!(parse(&data).unwrap_err(), Error::UnexpectedEndOfInput);
}

#[test]
fn minimal_true_color() {
    let img = parse(&true_color_2x2()).unwrap();
    assert_eq!(img.frame_count(), 1);
    let f = img.get_frame(0);
    assert_eq!(f.width(), 2);
    assert_eq!(f.height(), 2);
    assert_eq!(f.format().unwrap(), Format::Rgba8888);
    assert!(!f.has_mipmaps());
    assert_eq!(f.data().len(), 4);
    let raw = f.to_raw(None);
    assert_eq!(
        raw,
        vec![255, 0, 0, 255, 0, 255, 0, 255, 0, 0, 255, 255, 255, 255, 255, 255],
    );
}

#[test]
fn color_key_masks_matching_pixel() {
    let img = parse(&true_color_2x2()).unwrap();
    let f = img.get_frame(0);
    let raw = f.to_raw(Some(Pixel::new(255, 0, 0, 255)));
    assert_eq!(
        raw,
        vec![255, 0, 0, 0, 0, 255, 0, 255, 0, 0, 255, 255, 255, 255, 255, 255],
    );
}

#[test]
fn color_key_law_on_each_pixel() {
    let img = parse(&true_color_2x2()).unwrap();
    let f = img.get_frame(0);
    let key = Pixel::new(0, 0, 255, 255);
    let pixels = f.get_pixels();
    let raw = f.to_raw(Some(key));
    for (k, p) in pixels.iter().enumerate() {
        if *p == key {
            assert_eq!(raw[4 * k + 3], 0);
        } else {
            assert_eq!(raw[4 * k + 3], p.a());
        }
        assert_eq!(raw[4 * k], p.r());
        assert_eq!(raw[4 * k + 1], p.g());
        assert_eq!(raw[4 * k + 2], p.b());
    }
}

#[test]
fn four_bpp_unpacking() {
    // 1x4 frame, two payload bytes, high nibble first: indices 1, 2, 3, 4.
    let mut palette = Vec::new();
    for i in 0..5u8 {
        palette.extend_from_slice(&[10 * i, i, 0, 255]);
    }
    // clut_format 3: 4-byte color samples, non-linear bit clear (no
    // permutation at 4 bpp either way).
    let data = container(&[frame(20, 5, 3, 4, 1, 4, 0, &[0x12, 0x34], &palette)]);
    let img = parse(&data).unwrap();
    let f = img.get_frame(0);
    assert_eq!(f.format().unwrap(), Format::Indexed4);
    match f.data() {
        tim2::DataKind::Indices(v) => assert_eq!(v, &vec![1u8, 2, 3, 4]),
        tim2::DataKind::Pixels(_) => panic!("expected an indexed frame"),
    }
    let pixels = f.get_pixels();
    for (k, idx) in [1u8, 2, 3, 4].iter().enumerate() {
        assert_eq!(pixels[k], Pixel::new(10 * idx, *idx, 0, 255));
    }
}

#[test]
fn abgr1555_expansion() {
    // 2x1 16-bpp frame: 0xFFFF (alpha bit set) and 0x7FFF (alpha bit clear).
    let data = container(&[frame(0, 0, 0, 1, 2, 1, 0, &[0xFF, 0xFF, 0xFF, 0x7F], &[])]);
    let img = parse(&data).unwrap();
    let f = img.get_frame(0);
    assert_eq!(f.format().unwrap(), Format::Abgr1555);
    let pixels = f.get_pixels();
    assert_eq!(pixels[0], Pixel::new(255, 255, 255, 255));
    // The alpha bit of the 16-bit format maps 0 to 0 and 1 to 255; the
    // color channels expand 0x1F to 255 either way.
    assert_eq!(pixels[1], Pixel::new(255, 255, 255, 0));
}

#[test]
fn abgr1555_channel_expansion() {
    // 0x8001: alpha bit set, r = 1, g = 0, b = 0.  The 5-bit value 1
    // expands to (1 << 3) | (1 >> 2) = 8.
    let data = container(&[frame(0, 0, 0, 1, 1, 1, 0, &[0x01, 0x80], &[])]);
    let img = parse(&data).unwrap();
    let pixels = img.get_frame(0).get_pixels();
    assert_eq!(pixels[0], Pixel::new(8, 0, 0, 255));
}

#[test]
fn rgb888_opaque_alpha() {
    let data = container(&[frame(0, 0, 0, 2, 1, 1, 0, &[7, 8, 9], &[])]);
    let img = parse(&data).unwrap();
    let f = img.get_frame(0);
    assert_eq!(f.format().unwrap(), Format::Rgb888);
    assert_eq!(f.get_pixels()[0], Pixel::new(7, 8, 9, 255));
}

#[test]
fn format_conflict() {
    let data = container(&[frame(32, 8, 0, 3, 2, 2, 0, &[0u8; 16], &[0u8; 32])]);
    assert_eq!(parse(&data).unwrap_err(), Error::TrueColorAndPaletteFound);
}

#[test]
fn paletted_depth_without_palette_is_rejected() {
    let data = container(&[frame(0, 0, 0, 5, 2, 2, 0, &[0u8; 4], &[])]);
    assert_eq!(parse(&data).unwrap_err(), Error::TrueColorAndPaletteFound);
}

#[test]
fn invalid_bpp_code() {
    let data = container(&[frame(0, 0, 0, 0, 2, 2, 0, &[0u8; 16], &[])]);
    assert_eq!(parse(&data).unwrap_err(), Error::InvalidBppFormat(0));
    let data = container(&[frame(0, 0, 0, 6, 2, 2, 0, &[0u8; 16], &[])]);
    assert_eq!(parse(&data).unwrap_err(), Error::InvalidBppFormat(6));
}

#[test]
fn truncated_payload_is_end_of_input() {
    let mut data = true_color_2x2();
    data.truncate(data.len() - 1);
    assert_eq!(parse(&data).unwrap_err(), Error::UnexpectedEndOfInput);
}

#[test]
fn header_size_below_48_is_end_of_input() {
    let mut data = true_color_2x2();
    // The header_size field sits 12 bytes into the frame header, which
    // follows the 16-byte container header.
    data[16 + 12] = 47;
    data[16 + 13] = 0;
    assert_eq!(parse(&data).unwrap_err(), Error::UnexpectedEndOfInput);
}

#[test]
fn invalid_color_sample_size() {
    // clut_format 0 asks for 1-byte color samples, which the pixel codec
    // rejects.
    let data = container(&[frame(4, 4, 0, 5, 2, 2, 0, &[0u8; 4], &[0u8; 4])]);
    assert_eq!(parse(&data).unwrap_err(), Error::InvalidColorSampleSize(1));
}

#[test]
fn empty_palette_entries_are_end_of_input() {
    // A palette block with color_entry_count == 0 cannot be divided into
    // palettes.
    let data = container(&[frame(16, 0, 3, 4, 2, 2, 0, &[0u8; 2], &[0u8; 16])]);
    assert_eq!(parse(&data).unwrap_err(), Error::UnexpectedEndOfInput);
}

#[test]
fn zero_frame_container_parses() {
    let img = parse(&container(&[])).unwrap();
    assert_eq!(img.frame_count(), 0);
    assert_eq!(img.frames().len(), 0);
}

#[test]
fn trailing_bytes_are_ignored() {
    let mut data = container(&[]);
    data.extend_from_slice(&[1, 2, 3]);
    assert_eq!(parse(&data).unwrap().frame_count(), 0);
}

#[test]
fn two_frame_container() {
    let f1 = frame(0, 0, 0, 3, 1, 1, 0, &[1, 2, 3, 4], &[]);
    let f2 = frame(0, 0, 0, 2, 1, 1, 0, &[5, 6, 7], &[]);
    let img = parse(&container(&[f1, f2])).unwrap();
    assert_eq!(img.frame_count(), 2);
    assert_eq!(img.frames().len(), img.frame_count());
    assert_eq!(img.get_frame(0).get_pixels()[0], Pixel::new(1, 2, 3, 4));
    assert_eq!(img.get_frame(1).get_pixels()[0], Pixel::new(5, 6, 7, 255));
}

#[test]
fn empty_user_data() {
    let img = parse(&true_color_2x2()).unwrap();
    assert!(img.get_frame(0).header.user_data.is_empty());
}

#[test]
fn user_data_is_retained() {
    let mut f = frame(0, 0, 0, 3, 1, 1, 0, &[9, 9, 9, 9], &[]);
    // Raise header_size to 52 and splice four user-data bytes between the
    // 48-byte header prefix and the payload.
    f[12] = 52;
    for (k, v) in [0xDE, 0xAD, 0xBE, 0xEF].iter().enumerate() {
        f.insert(48 + k, *v);
    }
    let img = parse(&container(&[f])).unwrap();
    assert_eq!(img.get_frame(0).header.user_data, vec![0xDE, 0xAD, 0xBE, 0xEF]);
}

#[test]
fn decode_is_deterministic() {
    let data = true_color_2x2();
    let a = parse(&data).unwrap();
    let b = parse(&data).unwrap();
    assert_eq!(a.frame_count(), b.frame_count());
    assert_eq!(a.get_frame(0).to_raw(None), b.get_frame(0).to_raw(None));
    let key = Some(Pixel::new(255, 255, 255, 255));
    assert_eq!(a.get_frame(0).to_raw(key), b.get_frame(0).to_raw(key));
}

#[test]
fn truecolor_partial_sample_is_end_of_input() {
    // 24-bpp payload of 4 bytes: one full sample and a 1-byte remainder.
    let data = container(&[frame(0, 0, 0, 2, 2, 1, 0, &[1, 2, 3, 4], &[])]);
    assert_eq!(parse(&data).unwrap_err(), Error::UnexpectedEndOfInput);
}

#[test]
fn palette_count_times_size_is_palette_size() {
    // Two palettes of 4 entries, 4 bytes per sample: 32 bytes in all.
    let mut palette = Vec::new();
    for i in 0..8u8 {
        palette.extend_from_slice(&[i, 0, 0, 255]);
    }
    let data = container(&[frame(32, 4, 3, 4, 2, 1, 0, &[0x01], &palette)]);
    let img = parse(&data).unwrap();
    let f = img.get_frame(0);
    assert_eq!(f.palettes().len(), 2);
    for p in f.palettes() {
        assert_eq!(p.len(), 4);
    }
    assert_eq!(f.palettes().len() * 4 * 4, 32);
    assert_eq!(f.palettes()[1][3], Pixel::new(7, 0, 0, 255));
}

#[test]
fn palette_remainder_is_rejected() {
    // 20 palette bytes over a 16-byte per-palette size: the division is
    // not exact, so nothing is silently dropped.
    let data = container(&[frame(20, 4, 3, 4, 2, 1, 0, &[0x01], &[9u8; 20])]);
    assert_eq!(parse(&data).unwrap_err(), Error::UnexpectedEndOfInput);
}

#[test]
fn image_size_mismatch_is_rejected() {
    // A 1x1 32-bpp frame whose payload holds no pixel at all.
    let data = container(&[frame(0, 0, 0, 3, 1, 1, 0, &[], &[])]);
    assert_eq!(parse(&data).unwrap_err(), Error::UnexpectedEndOfInput);
    // A 1x2 4-bpp frame whose payload unpacks to four indices, not two.
    let mut palette = Vec::new();
    for i in 0..4u8 {
        palette.extend_from_slice(&[i, 0, 0, 255]);
    }
    let data = container(&[frame(16, 4, 3, 4, 1, 2, 0, &[0x12, 0x34], &palette)]);
    assert_eq!(parse(&data).unwrap_err(), Error::UnexpectedEndOfInput);
}

/// The source index of the block/stripe CLUT permutation for destination
/// entry `d`.
fn clut_source(d: usize) -> usize {
    (d / 32) * 32 + ((d % 32) / 16) * 8 + ((d % 16) / 8) * 16 + d % 8
}

#[test]
fn eight_bpp_palette_is_linearized() {
    // A non-linear (bit 7 of clut_format clear) 8-bpp palette of 32
    // entries is permuted out of block/stripe order.
    let mut palette = Vec::new();
    for i in 0..32u8 {
        palette.extend_from_slice(&[i, 0, 0, 255]);
    }
    let data = container(&[frame(128, 32, 3, 5, 1, 1, 0, &[0], &palette)]);
    let img = parse(&data).unwrap();
    let decoded = &img.get_frame(0).palettes()[0];
    for d in 0..32 {
        assert_eq!(decoded[d], Pixel::new(clut_source(d) as u8, 0, 0, 255));
    }
    assert_eq!(decoded[8], Pixel::new(16, 0, 0, 255));
    assert_eq!(decoded[16], Pixel::new(8, 0, 0, 255));
}

#[test]
fn linear_palette_keeps_its_order() {
    let mut palette = Vec::new();
    for i in 0..32u8 {
        palette.extend_from_slice(&[i, 0, 0, 255]);
    }
    // Bit 7 of clut_format set: the palette is already linear.
    let data = container(&[frame(128, 32, 0x83, 5, 1, 1, 0, &[0], &palette)]);
    let img = parse(&data).unwrap();
    let decoded = &img.get_frame(0).palettes()[0];
    for d in 0..32 {
        assert_eq!(decoded[d], Pixel::new(d as u8, 0, 0, 255));
    }
}

#[test]
fn partial_clut_group_is_not_permuted() {
    // 40 entries: the first 32 form a permuted group, the last 8 stay put.
    let mut palette = Vec::new();
    for i in 0..40u8 {
        palette.extend_from_slice(&[i, 0, 0, 255]);
    }
    let data = container(&[frame(160, 40, 3, 5, 1, 1, 0, &[0], &palette)]);
    let img = parse(&data).unwrap();
    let decoded = &img.get_frame(0).palettes()[0];
    for d in 32..40 {
        assert_eq!(decoded[d], Pixel::new(d as u8, 0, 0, 255));
    }
    assert_eq!(decoded[8], Pixel::new(16, 0, 0, 255));
}

/// The swizzled-stream index of frame coordinates `(tx, ty)` in a frame
/// `w` pixels wide.
fn swizzle_source(tx: usize, ty: usize, w: usize) -> usize {
    ((ty / 8) * ((w + 15) / 16) + tx / 16) * 128 + (ty % 8) * 16 + tx % 16
}

#[test]
fn swizzled_frame_is_deinterleaved() {
    // A 32x8 8-bpp frame stored in 16x8 tiles: byte j of the payload is j.
    let payload: Vec<u8> = (0..=255u8).collect();
    let mut palette = Vec::new();
    for i in 0..=255u8 {
        palette.extend_from_slice(&[i, 0, 0, 255]);
    }
    let data = container(
        &[frame(1024, 256, 0x83, 5, 32, 8, 1u64 << 55, &payload, &palette)],
    );
    let img = parse(&data).unwrap();
    let f = img.get_frame(0);
    match f.data() {
        tim2::DataKind::Indices(v) => {
            assert_eq!(v.len(), 256);
            for ty in 0..8 {
                for tx in 0..32 {
                    assert_eq!(
                        v[ty * 32 + tx] as usize,
                        swizzle_source(tx, ty, 32),
                        "at ({tx}, {ty})",
                    );
                }
            }
            assert_eq!(v[16], 128);
            assert_eq!(v[32], 16);
        },
        tim2::DataKind::Pixels(_) => panic!("expected an indexed frame"),
    }
    let pixels = f.get_pixels();
    assert_eq!(pixels[16], Pixel::new(128, 0, 0, 255));
}

#[test]
fn second_clut_group_permutes_with_its_own_base() {
    // 64 entries: two permuted 32-entry groups.
    let mut palette = Vec::new();
    for i in 0..64u8 {
        palette.extend_from_slice(&[i, 0, 0, 255]);
    }
    let data = container(&[frame(256, 64, 3, 5, 1, 1, 0, &[0], &palette)]);
    let img = parse(&data).unwrap();
    let decoded = &img.get_frame(0).palettes()[0];
    for d in 0..64 {
        assert_eq!(decoded[d], Pixel::new(clut_source(d) as u8, 0, 0, 255));
    }
    // Entry 40 sits in the second group: 32 + the permuted offset of 8.
    assert_eq!(decoded[40], Pixel::new(48, 0, 0, 255));
}

#[test]
fn has_mipmaps_when_count_above_one() {
    let mut f = frame(0, 0, 0, 3, 1, 1, 0, &[0, 0, 0, 0], &[]);
    f[17] = 2; // mipmap_count
    let img = parse(&container(&[f])).unwrap();
    assert!(img.get_frame(0).has_mipmaps());
}

#[test]
fn swizzled_true_color_frame_is_deinterleaved() {
    // A 32x8 32-bpp frame stored in 16x8 tiles: sample j has red channel j.
    let mut payload = Vec::new();
    for j in 0..=255u8 {
        payload.extend_from_slice(&[j, 0, 0, 255]);
    }
    let data = container(&[frame(0, 0, 0, 3, 32, 8, 1u64 << 55, &payload, &[])]);
    let img = parse(&data).unwrap();
    let pixels = img.get_frame(0).get_pixels();
    for ty in 0..8 {
        for tx in 0..32 {
            assert_eq!(
                pixels[ty * 32 + tx],
                Pixel::new(swizzle_source(tx, ty, 32) as u8, 0, 0, 255),
            );
        }
    }
}

#[test]
fn unswizzled_flag_off_keeps_order() {
    let payload: Vec<u8> = (0..=255u8).collect();
    let mut palette = Vec::new();
    for i in 0..=255u8 {
        palette.extend_from_slice(&[i, 0, 0, 255]);
    }
    let data = container(&[frame(1024, 256, 0x83, 5, 32, 8, 0, &payload, &palette)]);
    let img = parse(&data).unwrap();
    match img.get_frame(0).data() {
        tim2::DataKind::Indices(v) => {
            for (j, value) in v.iter().enumerate() {
                assert_eq!(*value as usize, j);
            }
        },
        tim2::DataKind::Pixels(_) => panic!("expected an indexed frame"),
    }
}

#[test]
fn raw_length_is_four_per_pixel() {
    let img = parse(&true_color_2x2()).unwrap();
    let f = img.get_frame(0);
    assert_eq!(f.to_raw(None).len(), f.width() * f.height() * 4);
    assert_eq!(f.get_pixels().len(), f.data().len());
}

#[test]
fn indices_valid_accepts_in_range_indices() {
    let img = parse(&true_color_2x2()).unwrap();
    assert!(img.get_frame(0).indices_valid());

    let mut palette = Vec::new();
    for i in 0..5u8 {
        palette.extend_from_slice(&[i, 0, 0, 255]);
    }
    let data = container(&[frame(20, 5, 3, 4, 1, 4, 0, &[0x12, 0x34], &palette)]);
    let img = parse(&data).unwrap();
    assert!(img.get_frame(0).indices_valid());
}

#[test]
fn indices_valid_detects_out_of_range_indices() {
    // A 4-bpp frame whose indices reach entry 4 of a 4-entry palette.
    let mut palette = Vec::new();
    for i in 0..4u8 {
        palette.extend_from_slice(&[i, 0, 0, 255]);
    }
    let data = container(&[frame(16, 4, 3, 4, 1, 4, 0, &[0x12, 0x34], &palette)]);
    let img = parse(&data).unwrap();
    assert!(!img.get_frame(0).indices_valid());
}

#[test]
fn undersized_palette_block_is_rejected() {
    // An 8-byte palette block over a 16-byte per-palette size holds no
    // complete palette.
    let data = container(&[frame(8, 4, 3, 4, 1, 4, 0, &[0x00, 0x00], &[0u8; 8])]);
    assert_eq!(parse(&data).unwrap_err(), Error::UnexpectedEndOfInput);
}

#[test]
fn from_buf_rejects_odd_sample_sizes() {
    assert_eq!(
        tim2::Pixel::from_buf(&[1, 2, 3, 4, 5]).unwrap_err(),
        Error::InvalidColorSampleSize(5),
    );
    assert_eq!(
        tim2::Pixel::from_buf(&[1]).unwrap_err(),
        Error::InvalidColorSampleSize(1),
    );
    assert_eq!(tim2::Pixel::from_buf(&[]).unwrap_err(), Error::InvalidColorSampleSize(0));
}

#[test]
fn pixel_format_rejects_unnormalized_depth() {
    let header = tim2::Header {
        total_size: 0,
        palette_size: 0,
        image_size: 0,
        header_size: 48,
        color_entry_count: 0,
        paletted: 0,
        mipmap_count: 0,
        clut_format: 0,
        bpp: 7,
        width: 0,
        height: 0,
        gs_tex_0: 0,
        gs_tex_1: 0,
        gs_regs: 0,
        gs_tex_clut: 0,
        user_data: Vec::new(),
    };
    assert_eq!(header.pixel_format().unwrap_err(), Error::InvalidBpp(7));
    assert_eq!(header.color_size(), 1);
    assert!(!header.is_linear_palette());
}
