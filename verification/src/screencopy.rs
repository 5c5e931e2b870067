//! Frame layouts, the wire pixel formats that can be captured, and captured
//! frames.

use crate::convert::{create_converter, spec_create_converter};
use crate::error::Error;
use crate::image_util::{Image, ImageView};
use crate::output::{OutputInfo, Transform};
use vstd::prelude::*;
use vstd::slice::slice_to_vec;

verus! {

/// Wire code of the 32-bit ARGB format, `[31:0] A:R:G:B 8:8:8:8`, little endian.
pub const FORMAT_ARGB8888: u32 = 0;

/// Wire code of the 32-bit RGB format, `[31:0] x:R:G:B 8:8:8:8`, little endian.
pub const FORMAT_XRGB8888: u32 = 1;

/// Wire code of the 32-bit xBGR format, `[31:0] x:B:G:R 8:8:8:8`, little endian.
pub const FORMAT_XBGR8888: u32 = 0x34324258;

/// Wire code of the 32-bit ABGR format, `[31:0] A:B:G:R 8:8:8:8`, little endian.
pub const FORMAT_ABGR8888: u32 = 0x34324241;

/// Wire code of the 32-bit xBGR format, `[31:0] x:B:G:R 2:10:10:10`, little endian.
pub const FORMAT_XBGR2101010: u32 = 0x30334258;

/// Wire code of the 32-bit ABGR format, `[31:0] A:B:G:R 2:10:10:10`, little endian.
pub const FORMAT_ABGR2101010: u32 = 0x30334241;

/// The shared-memory formats that a capture may be negotiated in: two
/// 10-bit formats and three 8-bit formats.
pub open spec fn spec_is_capture_format(format: u32) -> bool {
    ||| format == FORMAT_XBGR2101010
    ||| format == FORMAT_ABGR2101010
    ||| format == FORMAT_ARGB8888
    ||| format == FORMAT_XRGB8888
    ||| format == FORMAT_XBGR8888
}

/// Whether a capture may be negotiated in the format with this wire code.
pub fn is_capture_format(format: u32) -> (r: bool)
    ensures
        r == spec_is_capture_format(format),
{
    format == FORMAT_XBGR2101010 || format == FORMAT_ABGR2101010 || format == FORMAT_ARGB8888
        || format == FORMAT_XRGB8888 || format == FORMAT_XBGR8888
}

/// One pixel layout that the compositor offers for a frame.
#[derive(Debug, Copy, Clone, PartialEq, Eq, Structural)]
pub struct FrameFormat {
    /// Wire code of the pixel format.
    pub format: u32,
    /// Width of the frame in pixels.
    pub width: u32,
    /// Height of the frame in pixels.
    pub height: u32,
    /// Bytes per row.
    pub stride: u32,
}

impl FrameFormat {
    /// Bytes that a buffer for this frame holds: one stride per row.
    pub open spec fn spec_byte_size(&self) -> int {
        self.stride * self.height
    }

    /// Bytes that a buffer for this frame must hold.
    pub fn byte_size(&self) -> (bytes: u64)
        ensures
            bytes == self.spec_byte_size(),
    {
        assert(self.stride * self.height <= 0xffff_ffff * 0xffff_ffff) by (nonlinear_arith)
            requires
                0 <= self.stride <= 0xffff_ffff,
                0 <= self.height <= 0xffff_ffff,
        ;
        self.stride as u64 * self.height as u64
    }
}

/// How the bytes of a converted frame are to be read.
#[derive(Debug, Copy, Clone, PartialEq, Eq, Structural)]
pub enum ColorType {
    /// Pixels of one 8-bit luminance channel.
    L8,
    /// Pixels of 8-bit luminance and alpha.
    La8,
    /// Pixels of 8-bit red, green and blue.
    Rgb8,
    /// Pixels of 8-bit red, green, blue and alpha.
    Rgba8,
    /// Pixels of one 16-bit luminance channel.
    L16,
    /// Pixels of 16-bit luminance and alpha.
    La16,
    /// Pixels of 16-bit red, green and blue.
    Rgb16,
    /// Pixels of 16-bit red, green, blue and alpha.
    Rgba16,
}

/// One captured frame: pixels already converted, not yet turned upright.
#[derive(Debug)]
pub struct FrameCopy {
    /// Layout in which the frame was captured.
    pub frame_format: FrameFormat,
    /// How `frame_data` is to be read after conversion.
    pub frame_color_type: ColorType,
    /// The bytes of the frame, copied out of the shared buffer.
    pub frame_data: Vec<u8>,
    /// Transform of the output that the frame shows.
    pub transform: Transform,
    /// Logical position of that output.
    pub position: (i32, i32),
}

impl FrameCopy {
    /// What [`FrameCopy::new`] makes of a captured buffer: the frame with its
    /// bytes converted, or the failure for a format without a converter.
    pub open spec fn spec_new(
        frame_format: FrameFormat,
        data: Seq<u8>,
        output: &OutputInfo,
        frame: FrameCopy,
    ) -> bool {
        &&& spec_create_converter(frame_format.format) matches Some(converter)
        &&& frame.frame_format == frame_format
        &&& frame.frame_color_type == ColorType::Rgba8
        &&& frame.frame_data@ == converter.converted(data)
        &&& frame.transform == output.transform
        &&& frame.position == (output.dimensions.x, output.dimensions.y)
    }

    /// Makes a frame of the bytes that the compositor has written for
    /// `output` in the layout `frame_format`: the bytes are converted, and
    /// the output's transform and position are noted. A format that cannot
    /// be converted gives the frame up; nothing is converted in part.
    pub fn new(frame_format: FrameFormat, data: Vec<u8>, output: &OutputInfo) -> (r: Result<
        FrameCopy,
        Error,
    >)
        ensures
            spec_create_converter(frame_format.format) is None ==> r == Err::<FrameCopy, Error>(
                Error::NoSupportedBufferFormat,
            ),
            spec_create_converter(frame_format.format) is Some ==> r is Ok && FrameCopy::spec_new(
                frame_format,
                data@,
                output,
                r->Ok_0,
            ),
    {
        let converter = match create_converter(frame_format.format) {
            Some(converter) => converter,
            None => {
                return Err(Error::NoSupportedBufferFormat);
            },
        };
        let mut data = data;
        let frame_color_type = converter.convert_inplace(data.as_mut_slice());
        Ok(
            FrameCopy {
                frame_format,
                frame_color_type,
                frame_data: data,
                transform: output.transform,
                position: (output.dimensions.x, output.dimensions.y),
            },
        )
    }

    /// The image that the frame holds, as captured: the first
    /// `4 * width * height` bytes of the frame, read row by row. Only frames
    /// of 8-bit RGBA pixels can be read, and only if they hold an image of
    /// the frame's width and height.
    pub open spec fn spec_to_image(&self) -> Result<ImageView, Error> {
        if self.frame_color_type != ColorType::Rgba8 {
            Err(Error::InvalidColor)
        } else if !Image::fits(
            self.frame_format.width,
            self.frame_format.height,
            self.frame_data@.len(),
        ) {
            Err(Error::BufferTooSmall)
        } else {
            Ok(
                ImageView::of_bytes(
                    self.frame_format.width as nat,
                    self.frame_format.height as nat,
                    self.frame_data@,
                ),
            )
        }
    }

    /// Copies the frame into an image of its own.
    pub fn to_image(&self) -> (r: Result<Image, Error>)
        ensures
            match self.spec_to_image() {
                Ok(view) => r is Ok && r->Ok_0@ == view,
                Err(error) => r is Err && r->Err_0 == error,
            },
    {
        match self.frame_color_type {
            ColorType::Rgba8 => {
                let data = slice_to_vec(self.frame_data.as_slice());
                match Image::from_raw(self.frame_format.width, self.frame_format.height, data) {
                    Some(image) => Ok(image),
                    None => Err(Error::BufferTooSmall),
                }
            },
            _ => Err(Error::InvalidColor),
        }
    }
}

} // verus!
