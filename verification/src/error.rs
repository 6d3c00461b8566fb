use vstd::prelude::*;

verus! {

/// Everything that can go wrong while decoding a TIM2 buffer.
#[derive(Clone, Copy, Debug, PartialEq, Eq, Structural)]
pub enum Error {
    /// The container magic was not the big-endian bytes `"TIM2"`; carries the
    /// value that was read instead.
    InvalidIdentifier(u32),
    /// The per-frame header's bit-depth code was outside `1..=5`; carries the
    /// offending code.
    InvalidBppFormat(u8),
    /// A normalized bit depth outside `{4, 8, 16, 24, 32}` was encountered;
    /// carries the offending depth.
    InvalidBpp(u8),
    /// A frame declared both a palette and a true-color bit depth, or a
    /// paletted bit depth without a palette.
    TrueColorAndPaletteFound,
    /// The pixel codec was asked to decode a color sample whose byte size is
    /// outside `{2, 3, 4}`; carries the requested size.
    InvalidColorSampleSize(u8),
    /// A read ran past the end of the input buffer.
    UnexpectedEndOfInput,
}

} // verus!
