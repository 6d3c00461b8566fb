use vstd::prelude::*;

use crate::error::Error;
use crate::frame::Frame;
use crate::frame::FrameV;
use crate::frame::frame_spec;
use crate::reader::can_take;
use crate::reader::get_slice;
use crate::reader::read_u16_le;
use crate::reader::read_u32_be;
use crate::reader::u16_le_at;
use crate::reader::u32_be_at;

verus! {

/// The container magic: the ASCII bytes `T`, `I`, `M`, `2` read as a
/// big-endian `u32`.
pub const IDENT: u32 = 0x54494D32;

/// A decoded 16-byte container header.
#[derive(Debug)]
pub struct ImageHeader {
    pub identifier: u32,
    pub version: u16,
    pub count: u16,
}

/// The mathematical value of an [`ImageHeader`].
pub struct ImageHeaderV {
    pub identifier: u32,
    pub version: u16,
    pub count: u16,
}

impl View for ImageHeader {
    type V = ImageHeaderV;

    open spec fn view(&self) -> ImageHeaderV {
        ImageHeaderV { identifier: self.identifier, version: self.version, count: self.count }
    }
}

/// A decoded TIM2 container: its header and its frames.
#[derive(Debug)]
pub struct Image {
    pub header: ImageHeader,
    pub frames: Vec<Frame>,
}

/// The mathematical value of an [`Image`].
#[verifier::ext_equal]
pub struct ImageV {
    pub header: ImageHeaderV,
    pub frames: Seq<FrameV>,
}

impl View for Image {
    type V = ImageV;

    open spec fn view(&self) -> ImageV {
        ImageV { header: self.header@, frames: self.frames@.map_values(|f: Frame| f@) }
    }
}

/// What parsing the 16-byte container header at `off` yields: magic
/// (big-endian), version and frame count (little-endian), then 8 reserved
/// bytes consumed and discarded.  The magic is checked only after all 16
/// bytes are taken, so a short buffer is `UnexpectedEndOfInput` even when
/// its magic is wrong.
pub open spec fn image_header_spec(b: Seq<u8>, off: int) -> Result<(ImageHeaderV, int), Error>
    recommends
        0 <= off,
{
    if !can_take(b.len() as int, off, 16) {
        Err(Error::UnexpectedEndOfInput)
    } else {
        let identifier = u32_be_at(b, off);
        if identifier != IDENT {
            Err(Error::InvalidIdentifier(identifier))
        } else {
            Ok(
                (
                    ImageHeaderV {
                        identifier,
                        version: u16_le_at(b, off + 4),
                        count: u16_le_at(b, off + 6),
                    },
                    off + 16,
                ),
            )
        }
    }
}

/// What parsing `n` consecutive frames at `off` yields: their values in
/// order and the offset just past the last, or the first error on the way.
pub open spec fn frames_spec(b: Seq<u8>, off: int, n: int) -> Result<(Seq<FrameV>, int), Error>
    recommends
        0 <= off,
    decreases n,
{
    if n <= 0 {
        Ok((Seq::empty(), off))
    } else {
        match frame_spec(b, off) {
            Err(e) => Err(e),
            Ok((f, off1)) => match frames_spec(b, off1, n - 1) {
                Err(e) => Err(e),
                Ok((fs, off2)) => Ok((seq![f] + fs, off2)),
            },
        }
    }
}

/// What parsing a whole TIM2 container at `off` yields: the container
/// header followed by exactly `count` frames, and the offset just past the
/// last frame.
pub open spec fn image_at(b: Seq<u8>, off: int) -> Result<(ImageV, int), Error>
    recommends
        0 <= off,
{
    match image_header_spec(b, off) {
        Err(e) => Err(e),
        Ok((h, off1)) => match frames_spec(b, off1, h.count as int) {
            Err(e) => Err(e),
            Ok((fs, off2)) => Ok((ImageV { header: h, frames: fs }, off2)),
        },
    }
}

/// What decoding a TIM2 buffer yields.  Bytes after the last frame are
/// ignored.
pub open spec fn image_spec(b: Seq<u8>) -> Result<ImageV, Error> {
    match image_at(b, 0) {
        Err(e) => Err(e),
        Ok((img, _)) => Ok(img),
    }
}

impl ImageHeader {
    /// Parses the 16-byte container header at the cursor and checks the
    /// magic.
    fn read(buffer: &[u8], offset: &mut usize) -> (r: Result<ImageHeader, Error>)
        ensures
            match r {
                Ok(h) => image_header_spec(buffer@, *old(offset) as int) == Ok::<
                    (ImageHeaderV, int),
                    Error,
                >((h@, *final (offset) as int)),
                Err(e) => image_header_spec(buffer@, *old(offset) as int) == Err::<
                    (ImageHeaderV, int),
                    Error,
                >(e),
            },
    {
        let identifier = read_u32_be(buffer, offset)?;
        let version = read_u16_le(buffer, offset)?;
        let count = read_u16_le(buffer, offset)?;
        let _reserved = get_slice(buffer, offset, 8)?;
        if identifier != IDENT {
            return Err(Error::InvalidIdentifier(identifier));
        }
        Ok(ImageHeader { identifier, version, count })
    }
}

impl Image {
    /// Parses a whole TIM2 container at the cursor.
    #[verifier::rlimit(60)]
    pub fn read(buffer: &[u8], offset: &mut usize) -> (r: Result<Image, Error>)
        ensures
            match r {
                Ok(img) => image_at(buffer@, *old(offset) as int) == Ok::<(ImageV, int), Error>(
                    (img@, *final (offset) as int),
                ),
                Err(e) => image_at(buffer@, *old(offset) as int) == Err::<(ImageV, int), Error>(
                    e,
                ),
            },
    {
        let ghost off0 = *offset as int;
        let header = ImageHeader::read(buffer, offset)?;
        let mut frames: Vec<Frame> = Vec::new();
        let count = header.count as usize;
        let mut i: usize = 0;
        while i < count
            invariant
                count == header@.count,
                off0 == *old(offset) as int,
                image_header_spec(buffer@, off0) == Ok::<(ImageHeaderV, int), Error>(
                    (header@, off0 + 16),
                ),
                0 <= off0,
                i <= count,
                frames@.len() == i,
                frames_spec(buffer@, off0 + 16, count as int) == (match frames_spec(
                    buffer@,
                    *offset as int,
                    count - i,
                ) {
                    Ok((fs, o)) => Ok::<(Seq<FrameV>, int), Error>(
                        (frames@.map_values(|f: Frame| f@) + fs, o),
                    ),
                    Err(e) => Err::<(Seq<FrameV>, int), Error>(e),
                }),
            decreases count - i,
        {
            let frame = match Frame::read(buffer, offset) {
                Ok(f) => f,
                Err(e) => {
                    return Err(e);
                },
            };
            let ghost pre = frames@;
            frames.push(frame);
            proof {
                let b = buffer@;
                let fv = |f: Frame| f@;
                assert(frames@.map_values(fv) =~= pre.map_values(fv) + seq![frame@]);
                let rest = frames_spec(b, *offset as int, count - (i + 1));
                if rest is Ok {
                    let fs2 = rest->Ok_0.0;
                    assert(pre.map_values(fv) + (seq![frame@] + fs2) =~= frames@.map_values(fv)
                        + fs2);
                }
            }
            i = i + 1;
        }
        proof {
            assert(frames@.map_values(|f: Frame| f@) + Seq::<FrameV>::empty() =~= frames@.map_values(
                |f: Frame| f@,
            ));
            let result_v = ImageV {
                header: header@,
                frames: frames@.map_values(|f: Frame| f@),
            };
            assert(image_at(buffer@, off0) == Ok::<(ImageV, int), Error>(
                (result_v, *offset as int),
            ));
        }
        Ok(Image { header, frames })
    }

    /// The container's frames, in order.
    pub fn frames(&self) -> (r: &Vec<Frame>)
        ensures
            r@.map_values(|f: Frame| f@) == self@.frames,
    {
        &self.frames
    }

    /// The number of frames.
    pub fn frame_count(&self) -> (n: usize)
        ensures
            n == self@.frames.len(),
    {
        self.frames.len()
    }

    /// Frame `index` of the container.
    pub fn get_frame(&self, index: usize) -> (r: &Frame)
        requires
            index < self@.frames.len(),
        ensures
            r@ == self@.frames[index as int],
    {
        &self.frames[index]
    }
}

/// Decodes a TIM2 container from a byte buffer.
pub fn parse(buffer: &[u8]) -> (r: Result<Image, Error>)
    ensures
        match r {
            Ok(img) => image_spec(buffer@) == Ok::<ImageV, Error>(img@),
            Err(e) => image_spec(buffer@) == Err::<ImageV, Error>(e),
        },
{
    let mut offset: usize = 0;
    Image::read(buffer, &mut offset)
}

} // verus!
