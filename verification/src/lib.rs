//! Decoder for the TIM2 image container: a multi-frame texture format used
//! by a legacy console's graphics hardware.
//!
//! [`parse`] turns a byte buffer into an [`Image`]: a container header plus a
//! sequence of [`Frame`]s.  Each frame holds either palette indices or
//! true-color pixels, and exposes a flat RGBA8888 buffer through
//! [`Frame::to_raw`].

pub mod error;
pub mod frame;
pub mod image;
pub mod laws;
pub mod pixel;
pub mod reader;

pub use error::Error;
pub use frame::DataKind;
pub use frame::Frame;
pub use frame::Header;
pub use frame::PixelBuffer;
pub use image::Image;
pub use image::parse;
pub use pixel::Format;
pub use pixel::Pixel;
