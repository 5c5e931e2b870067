//! In-place conversion of captured buffers from the wire pixel formats to
//! 8-bit RGBA.

use crate::screencopy::{
    ColorType, FORMAT_ABGR2101010, FORMAT_ABGR8888, FORMAT_ARGB8888, FORMAT_XBGR2101010,
    FORMAT_XBGR8888, FORMAT_XRGB8888,
};
use vstd::prelude::*;

verus! {

/// How the bytes of a captured buffer are brought into red, green, blue,
/// alpha order, one byte each.
#[derive(Debug, Copy, Clone, PartialEq, Eq, Structural)]
pub enum Converter {
    /// The bytes are in that order already.
    Unchanged,
    /// Red and blue trade places in every pixel.
    SwapRedBlue,
    /// Every pixel packs three 10-bit channels, red lowest, into 32 bits
    /// little endian; each channel keeps its upper 8 bits, and alpha becomes
    /// opaque.
    Packed10,
}

/// The converter for each wire format that has one.
pub open spec fn spec_create_converter(format: u32) -> Option<Converter> {
    if format == FORMAT_XBGR8888 || format == FORMAT_ABGR8888 {
        Some(Converter::Unchanged)
    } else if format == FORMAT_XRGB8888 || format == FORMAT_ARGB8888 {
        Some(Converter::SwapRedBlue)
    } else if format == FORMAT_XBGR2101010 || format == FORMAT_ABGR2101010 {
        Some(Converter::Packed10)
    } else {
        None
    }
}

/// The converter for a wire format; `None` for a format that cannot be
/// converted, in which case the frame must be given up.
pub fn create_converter(format: u32) -> (r: Option<Converter>)
    ensures
        r == spec_create_converter(format),
{
    if format == FORMAT_XBGR8888 || format == FORMAT_ABGR8888 {
        Some(Converter::Unchanged)
    } else if format == FORMAT_XRGB8888 || format == FORMAT_ARGB8888 {
        Some(Converter::SwapRedBlue)
    } else if format == FORMAT_XBGR2101010 || format == FORMAT_ABGR2101010 {
        Some(Converter::Packed10)
    } else {
        None
    }
}

/// The 32-bit word that four bytes hold in little-endian order.
pub open spec fn packed_pixel(b0: u8, b1: u8, b2: u8, b3: u8) -> u32 {
    ((b3 as u32) << 24) | ((b2 as u32) << 16) | ((b1 as u32) << 8) | (b0 as u32)
}

/// The upper 8 bits of the 10-bit channel that starts at bit `shift`.
pub open spec fn channel8(pixel: u32, shift: u32) -> u8 {
    (((pixel >> shift) >> 2) & 255) as u8
}

/// The 32-bit word that four bytes hold in little-endian order.
fn pack_pixel(b0: u8, b1: u8, b2: u8, b3: u8) -> (pixel: u32)
    ensures
        pixel == packed_pixel(b0, b1, b2, b3),
{
    ((b3 as u32) << 24) | ((b2 as u32) << 16) | ((b1 as u32) << 8) | (b0 as u32)
}

/// The upper 8 bits of the 10-bit channel that starts at bit `shift`.
fn convert10_to_8(pixel: u32, shift: u32) -> (channel: u8)
    requires
        shift < 32,
    ensures
        channel == channel8(pixel, shift),
{
    (((pixel >> shift) >> 2) & 255) as u8
}

impl Converter {
    /// Byte `i` of the converted buffer. Bytes beyond the last whole pixel
    /// stay as they are.
    pub open spec fn converted_byte(self, data: Seq<u8>, i: int) -> u8 {
        let k = i - i % 4;
        if k + 4 > data.len() {
            data[i]
        } else {
            match self {
                Converter::Unchanged => data[i],
                Converter::SwapRedBlue => if i % 4 == 0 {
                    data[k + 2]
                } else if i % 4 == 2 {
                    data[k]
                } else {
                    data[i]
                },
                Converter::Packed10 => {
                    let pixel = packed_pixel(data[k], data[k + 1], data[k + 2], data[k + 3]);
                    if i % 4 == 0 {
                        channel8(pixel, 0)
                    } else if i % 4 == 1 {
                        channel8(pixel, 10)
                    } else if i % 4 == 2 {
                        channel8(pixel, 20)
                    } else {
                        255
                    }
                },
            }
        }
    }

    /// The converted buffer: as long as the raw one, every byte converted.
    pub open spec fn converted(self, data: Seq<u8>) -> Seq<u8> {
        Seq::new(data.len(), |i: int| self.converted_byte(data, i))
    }

    /// Rewrites the buffer in place and returns how its bytes are to be read
    /// from then on.
    pub fn convert_inplace(&self, data: &mut [u8]) -> (color: ColorType)
        ensures
            final(data)@ == self.converted(old(data)@),
            color == ColorType::Rgba8,
    {
        let len = data.len();
        let mut k: usize = 0;
        while len - k >= 4
            invariant
                k <= len,
                k % 4 == 0,
                data@.len() == len,
                old(data)@.len() == len,
                forall|i: int| 0 <= i < k ==> data@[i] == self.converted_byte(old(data)@, i),
                forall|i: int| k <= i < len ==> data@[i] == old(data)@[i],
            decreases len - k,
        {
            match self {
                Converter::Unchanged => {},
                Converter::SwapRedBlue => {
                    let red = data[k + 2];
                    let blue = data[k];
                    data[k] = red;
                    data[k + 2] = blue;
                },
                Converter::Packed10 => {
                    let pixel = pack_pixel(data[k], data[k + 1], data[k + 2], data[k + 3]);
                    data[k] = convert10_to_8(pixel, 0);
                    data[k + 1] = convert10_to_8(pixel, 10);
                    data[k + 2] = convert10_to_8(pixel, 20);
                    data[k + 3] = 255;
                },
            }
            k += 4;
        }
        ColorType::Rgba8
    }
}

/// Law: conversion is a function of the format and the bytes: the same
/// bytes converted twice give the same bytes, for every wire format that has
/// a converter.
pub proof fn lemma_conversion_deterministic(format: u32, first: Seq<u8>, second: Seq<u8>)
    requires
        spec_create_converter(format) is Some,
        first == second,
    ensures
        spec_create_converter(format)->0.converted(first) == spec_create_converter(
            format,
        )->0.converted(second),
        spec_create_converter(format)->0.converted(first).len() == first.len(),
{
}

} // verus!
