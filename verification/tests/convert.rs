use libwayshot::convert::{create_converter, Converter};
use libwayshot::screencopy::{
    ColorType, FORMAT_ABGR2101010, FORMAT_ABGR8888, FORMAT_ARGB8888, FORMAT_XBGR2101010,
    FORMAT_XBGR8888, FORMAT_XRGB8888,
};

#[test]
fn every_supported_format_has_its_converter() {
    assert_eq!(create_converter(FORMAT_XBGR8888), Some(Converter::Unchanged));
    assert_eq!(create_converter(FORMAT_ABGR8888), Some(Converter::Unchanged));
    assert_eq!(create_converter(FORMAT_XRGB8888), Some(Converter::SwapRedBlue));
    assert_eq!(create_converter(FORMAT_ARGB8888), Some(Converter::SwapRedBlue));
    assert_eq!(create_converter(FORMAT_XBGR2101010), Some(Converter::Packed10));
    assert_eq!(create_converter(FORMAT_ABGR2101010), Some(Converter::Packed10));
}

#[test]
fn other_formats_have_no_converter() {
    for format in [0x36314752, 0x34324742, 2, 0x30335258, u32::MAX] {
        assert_eq!(create_converter(format), None);
    }
}

#[test]
fn wire_codes_of_the_formats() {
    assert_eq!(FORMAT_ARGB8888, 0);
    assert_eq!(FORMAT_XRGB8888, 1);
    assert_eq!(FORMAT_XBGR8888, u32::from_le_bytes(*b"XB24"));
    assert_eq!(FORMAT_ABGR8888, u32::from_le_bytes(*b"AB24"));
    assert_eq!(FORMAT_XBGR2101010, u32::from_le_bytes(*b"XB30"));
    assert_eq!(FORMAT_ABGR2101010, u32::from_le_bytes(*b"AB30"));
}

#[test]
fn bytes_in_order_stay_as_they_are() {
    let mut data = vec![1, 2, 3, 4, 5, 6, 7, 8, 9];
    let color = Converter::Unchanged.convert_inplace(&mut data);
    assert_eq!(color, ColorType::Rgba8);
    assert_eq!(data, vec![1, 2, 3, 4, 5, 6, 7, 8, 9]);
}

#[test]
fn red_and_blue_trade_places() {
    let mut data = vec![1, 2, 3, 4, 50, 60, 70, 80];
    let color = Converter::SwapRedBlue.convert_inplace(&mut data);
    assert_eq!(color, ColorType::Rgba8);
    assert_eq!(data, vec![3, 2, 1, 4, 70, 60, 50, 80]);
}

#[test]
fn bytes_after_the_last_whole_pixel_stay() {
    let mut data = vec![1, 2, 3, 4, 5, 6, 7];
    Converter::SwapRedBlue.convert_inplace(&mut data);
    assert_eq!(data, vec![3, 2, 1, 4, 5, 6, 7]);
    let mut data = vec![0xff, 0x03, 0x00, 0xe0, 9, 8];
    Converter::Packed10.convert_inplace(&mut data);
    assert_eq!(data, vec![255, 0, 128, 255, 9, 8]);
    let mut short = vec![1, 2, 3];
    Converter::Packed10.convert_inplace(&mut short);
    assert_eq!(short, vec![1, 2, 3]);
    let mut empty: Vec<u8> = Vec::new();
    Converter::SwapRedBlue.convert_inplace(&mut empty);
    assert!(empty.is_empty());
}

#[test]
fn ten_bit_channels_keep_their_upper_eight_bits() {
    // red 1023, green 0, blue 512, alpha bits 3
    let pixel: u32 = 1023 | (0 << 10) | (512 << 20) | (3 << 30);
    let mut data = pixel.to_le_bytes().to_vec();
    assert_eq!(data, vec![0xff, 0x03, 0x00, 0xe0]);
    let color = Converter::Packed10.convert_inplace(&mut data);
    assert_eq!(color, ColorType::Rgba8);
    assert_eq!(data, vec![255, 0, 128, 255]);

    // red 4, green 1023, blue 0, alpha bits 0
    let pixel: u32 = 4 | (1023 << 10);
    let mut data = pixel.to_le_bytes().to_vec();
    assert_eq!(data, vec![0x04, 0xfc, 0x0f, 0x00]);
    Converter::Packed10.convert_inplace(&mut data);
    assert_eq!(data, vec![1, 255, 0, 255]);

    // red 3 (below one 8-bit step), green 7, blue 1023
    let pixel: u32 = 3 | (7 << 10) | (1023 << 20);
    let mut data = pixel.to_le_bytes().to_vec();
    Converter::Packed10.convert_inplace(&mut data);
    assert_eq!(data, vec![0, 1, 255, 255]);
}

#[test]
fn ten_bit_conversion_of_every_channel_value() {
    for value in 0u32..1024 {
        for shift in [0u32, 10, 20] {
            let pixel = value << shift;
            let mut data = pixel.to_le_bytes().to_vec();
            Converter::Packed10.convert_inplace(&mut data);
            let mut expected = vec![0u8, 0, 0, 255];
            expected[(shift / 10) as usize] = (value / 4) as u8;
            assert_eq!(data, expected);
        }
    }
}

#[test]
fn conversion_is_deterministic() {
    let raw: Vec<u8> = (0..64u32).map(|i| (i * 37 % 251) as u8).collect();
    for format in [
        FORMAT_XBGR8888,
        FORMAT_ABGR8888,
        FORMAT_XRGB8888,
        FORMAT_ARGB8888,
        FORMAT_XBGR2101010,
        FORMAT_ABGR2101010,
    ] {
        let converter = create_converter(format).unwrap();
        let mut first = raw.clone();
        let mut second = raw.clone();
        converter.convert_inplace(&mut first);
        converter.convert_inplace(&mut second);
        assert_eq!(first, second);
        assert_eq!(first.len(), raw.len());
    }
}
