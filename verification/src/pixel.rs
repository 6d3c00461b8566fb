use vstd::prelude::*;

use crate::error::Error;

verus! {

/// A color sample with four 8-bit channels.  Equality is component-wise.
#[derive(Clone, Copy, Debug, PartialEq, Eq, Structural)]
pub struct Pixel {
    pub r: u8,
    pub g: u8,
    pub b: u8,
    pub a: u8,
}

/// The pixel storage format of a frame, derived from its normalized bit
/// depth.  Indexed formats imply palette presence; true-color formats
/// forbid it.
#[derive(Clone, Copy, Debug, PartialEq, Eq, Structural)]
pub enum Format {
    Indexed4,
    Indexed8,
    Abgr1555,
    Rgb888,
    Rgba8888,
}

/// Expands a 5-bit channel to 8 bits: `x << 3 | x >> 2`, written
/// arithmetically.
pub open spec fn expand5_spec(c: int) -> u8
    recommends
        0 <= c < 32,
{
    (c * 8 + c / 4) as u8
}

/// The pixel encoded by a 16-bit ABGR1555 sample (`a`(1) `b`(5) `g`(5)
/// `r`(5), MSB to LSB), read as a little-endian `u16` from two bytes.
pub open spec fn pixel2_spec(b0: u8, b1: u8) -> Pixel {
    let v = b0 + b1 * 0x100;
    Pixel {
        r: expand5_spec(v % 32),
        g: expand5_spec((v / 32) % 32),
        b: expand5_spec((v / 1024) % 32),
        a: if v / 32768 == 0 { 0 } else { 255 },
    }
}

/// The pixel encoded by a 24-bit RGB888 sample; alpha is 255.
pub open spec fn pixel3_spec(b0: u8, b1: u8, b2: u8) -> Pixel {
    Pixel { r: b0, g: b1, b: b2, a: 255 }
}

/// The pixel encoded by a 32-bit RGBA8888 sample.
pub open spec fn pixel4_spec(b0: u8, b1: u8, b2: u8, b3: u8) -> Pixel {
    Pixel { r: b0, g: b1, b: b2, a: b3 }
}

/// The pixel encoded by a color sample of 2, 3 or 4 bytes.
pub open spec fn pixel_of(s: Seq<u8>) -> Pixel
    recommends
        2 <= s.len() <= 4,
{
    if s.len() == 2 {
        pixel2_spec(s[0], s[1])
    } else if s.len() == 3 {
        pixel3_spec(s[0], s[1], s[2])
    } else {
        pixel4_spec(s[0], s[1], s[2], s[3])
    }
}

/// What [`Pixel::from_buf`] returns for a buffer of any length.
pub open spec fn from_buf_spec(s: Seq<u8>) -> Result<Pixel, Error> {
    if 2 <= s.len() <= 4 {
        Ok(pixel_of(s))
    } else {
        Err(Error::InvalidColorSampleSize(s.len() as u8))
    }
}

/// Expands a 5-bit channel to 8 bits.
fn expand5(c: u16) -> (r: u8)
    requires
        c < 32,
    ensures
        r == expand5_spec(c as int),
{
    (c * 8 + c / 4) as u8
}

impl Pixel {
    pub fn new(r: u8, g: u8, b: u8, a: u8) -> (p: Pixel)
        ensures
            p == (Pixel { r, g, b, a }),
    {
        Pixel { r, g, b, a }
    }

    pub fn r(&self) -> (v: u8)
        ensures
            v == self.r,
    {
        self.r
    }

    pub fn g(&self) -> (v: u8)
        ensures
            v == self.g,
    {
        self.g
    }

    pub fn b(&self) -> (v: u8)
        ensures
            v == self.b,
    {
        self.b
    }

    pub fn a(&self) -> (v: u8)
        ensures
            v == self.a,
    {
        self.a
    }

    /// Decodes one pixel from a color sample of 2 (ABGR1555), 3 (RGB888) or
    /// 4 (RGBA8888) bytes; any other length is an `InvalidColorSampleSize`.
    pub fn from_buf(buf: &[u8]) -> (r: Result<Pixel, Error>)
        ensures
            r == from_buf_spec(buf@),
    {
        if buf.len() == 2 {
            let v: u16 = buf[0] as u16 + buf[1] as u16 * 0x100;
            Ok(
                Pixel {
                    r: expand5(v % 32),
                    g: expand5((v / 32) % 32),
                    b: expand5((v / 1024) % 32),
                    a: if v / 32768 == 0 {
                        0
                    } else {
                        255
                    },
                },
            )
        } else if buf.len() == 3 {
            Ok(Pixel { r: buf[0], g: buf[1], b: buf[2], a: 255 })
        } else if buf.len() == 4 {
            Ok(Pixel { r: buf[0], g: buf[1], b: buf[2], a: buf[3] })
        } else {
            Err(Error::InvalidColorSampleSize(buf.len() as u8))
        }
    }
}

} // verus!
