use libwayshot::region::CaptureRegion;
use libwayshot::utils::{
    get_default_file_name, is_whitespace, parse_geometry, EncodingError, EncodingFormat,
    GeometryError, NumberError, PathExtension,
};
use std::num::IntErrorKind;

fn region(x: i32, y: i32, width: i32, height: i32) -> CaptureRegion {
    CaptureRegion { x_coordinate: x, y_coordinate: y, width, height }
}

fn number(text: &str) -> Result<i32, GeometryError> {
    text.parse::<i32>().map_err(|e| {
        GeometryError::Number(match e.kind() {
            IntErrorKind::Empty => NumberError::Empty,
            IntErrorKind::InvalidDigit => NumberError::InvalidDigit,
            IntErrorKind::PosOverflow => NumberError::PosOverflow,
            IntErrorKind::NegOverflow => NumberError::NegOverflow,
            _ => unreachable!(),
        })
    })
}

/// The same grammar written with the string functions of the standard
/// library, to hold the parser against.
fn with_std(g: &str) -> Result<CaptureRegion, GeometryError> {
    let tail = g.trim();
    let (first, second, third) = if tail.contains(',') { (',', ' ', 'x') } else { (' ', ' ', ' ') };
    let (head, tail) = tail.split_once(first).ok_or(GeometryError::Invalid)?;
    let x = number(head)?;
    let (head, tail) = tail.split_once(second).ok_or(GeometryError::Invalid)?;
    let y = number(head)?;
    let (head, tail) = tail.split_once(third).ok_or(GeometryError::Invalid)?;
    let width = number(head)?;
    let height = number(tail)?;
    if width < 0 || height < 0 {
        return Err(GeometryError::NegativeSize);
    }
    Ok(region(x, y, width, height))
}

#[test]
fn geometry_with_a_comma() {
    assert_eq!(parse_geometry("10,20 30x40"), Ok(region(10, 20, 30, 40)));
    assert_eq!(parse_geometry("0,0 1920x1080"), Ok(region(0, 0, 1920, 1080)));
    assert_eq!(parse_geometry("-5,+7 3x2"), Ok(region(-5, 7, 3, 2)));
    assert_eq!(parse_geometry("-5,-7 +3x+2"), Ok(region(-5, -7, 3, 2)));
}

#[test]
fn geometry_with_spaces() {
    assert_eq!(parse_geometry("10 20 30 40"), Ok(region(10, 20, 30, 40)));
    assert_eq!(parse_geometry("-1920 0 1920 1080"), Ok(region(-1920, 0, 1920, 1080)));
    assert_eq!(parse_geometry("007 +0 -0 00"), Ok(region(7, 0, 0, 0)));
}

#[test]
fn geometry_with_white_space_around_it() {
    assert_eq!(parse_geometry("  10,20 30x40\n"), Ok(region(10, 20, 30, 40)));
    assert_eq!(parse_geometry("\t1 2 3 4 \r\n"), Ok(region(1, 2, 3, 4)));
    assert_eq!(parse_geometry("\u{3000}1 2 3 4\u{a0}\u{2003}"), Ok(region(1, 2, 3, 4)));
}

#[test]
fn geometry_at_the_limits_of_the_numbers() {
    assert_eq!(
        parse_geometry("2147483647,-2147483648 2147483647x2147483647"),
        Ok(region(i32::MAX, i32::MIN, i32::MAX, i32::MAX))
    );
    assert_eq!(
        parse_geometry("-2147483648 2147483647 0 0"),
        Ok(region(i32::MIN, i32::MAX, 0, 0))
    );
    assert_eq!(
        parse_geometry("0,0 2147483647x-2147483648"),
        Err(GeometryError::NegativeSize)
    );
    assert_eq!(
        parse_geometry("2147483648 0 1 1"),
        Err(GeometryError::Number(NumberError::PosOverflow))
    );
    assert_eq!(
        parse_geometry("0 -2147483649 1 1"),
        Err(GeometryError::Number(NumberError::NegOverflow))
    );
    assert_eq!(
        parse_geometry("0 0 99999999999999999999 1"),
        Err(GeometryError::Number(NumberError::PosOverflow))
    );
    assert_eq!(
        parse_geometry("0 0 1 -99999999999999999999"),
        Err(GeometryError::Number(NumberError::NegOverflow))
    );
    assert_eq!(parse_geometry("0 0 1 0000000000000000000001"), Ok(region(0, 0, 1, 1)));
}

#[test]
fn geometry_with_a_negative_size() {
    for text in [
        "0,0 -5x10",
        "0,0 5x-10",
        "0,0 -5x-10",
        "0 0 -1 0",
        "0 0 0 -1",
        "-3 -4 -1 -1",
        " 7,8 1x-2147483648\n",
    ] {
        assert_eq!(parse_geometry(text), Err(GeometryError::NegativeSize), "{text:?}");
    }
    // Zero is no negative size, with a sign or without.
    assert_eq!(parse_geometry("0,0 -0x0"), Ok(region(0, 0, 0, 0)));
    assert_eq!(parse_geometry("-1 -2 0 -0"), Ok(region(-1, -2, 0, 0)));
    // What cannot be read comes before what is negative.
    assert_eq!(
        parse_geometry("0,0 -5xa"),
        Err(GeometryError::Number(NumberError::InvalidDigit))
    );
    assert_eq!(
        parse_geometry("0 0 -5 -2147483649"),
        Err(GeometryError::Number(NumberError::NegOverflow))
    );
    assert_eq!(parse_geometry("0 0 -5"), Err(GeometryError::Invalid));
    assert_eq!(
        GeometryError::NegativeSize.message(),
        "Invalid geometry provided.\nWidth and height must not be negative."
    );
}

#[test]
fn every_geometry_read_is_a_valid_region() {
    let numbers = ["-2147483648", "-7", "-1", "-0", "0", "+0", "1", "42", "2147483647"];
    let mut read = 0;
    for w in numbers {
        for h in numbers {
            for text in [format!("3,-4 {w}x{h}"), format!("-3 4 {w} {h}")] {
                match parse_geometry(&text) {
                    Ok(r) => {
                        assert!(r.width >= 0 && r.height >= 0, "{text:?}");
                        assert!(r.is_valid());
                        assert!(!w.starts_with('-') || w == "-0");
                        assert!(!h.starts_with('-') || h == "-0");
                        read += 1;
                    }
                    Err(error) => assert_eq!(error, GeometryError::NegativeSize, "{text:?}"),
                }
            }
        }
    }
    assert_eq!(read, 2 * 6 * 6);
}

#[test]
fn geometry_without_a_separator() {
    for text in ["", "   ", "10", "10 20", "10 20 30", "10,20", "10,20 30", "10,2030x40", "x"] {
        assert_eq!(parse_geometry(text), Err(GeometryError::Invalid), "{text:?}");
    }
    assert_eq!(
        GeometryError::Invalid.message(),
        "Invalid geometry provided.\nValid geometries:\n1) %d,%d %dx%d\n2) %d %d %d %d"
    );
}

#[test]
fn geometry_with_an_empty_field() {
    for text in [",20 30x40", "10, 30x40", "10,20 x40", "10,20 30x", "10  20 30 40", " 1 2  3 "] {
        assert_eq!(
            parse_geometry(text),
            Err(GeometryError::Number(NumberError::Empty)),
            "{text:?}"
        );
    }
    assert_eq!(
        GeometryError::Number(NumberError::Empty).message(),
        "cannot parse integer from empty string"
    );
}

#[test]
fn geometry_with_a_field_that_is_no_number() {
    for text in [
        "a,20 30x40",
        "10,b 30x40",
        "10,20 cx40",
        "10,20 30xd",
        "10 20 30 40 50",
        "10,20 30x40x50",
        "- 0 1 1",
        "+ 0 1 1",
        "1\t2 3 4",
        "1.5 2 3 4",
        "1 2 3 ٤",
        "--1 2 3 4",
        "1_000 2 3 4",
        "0x10 2 3 4",
    ] {
        assert_eq!(
            parse_geometry(text),
            Err(GeometryError::Number(NumberError::InvalidDigit)),
            "{text:?}"
        );
    }
    assert_eq!(
        GeometryError::Number(NumberError::InvalidDigit).message(),
        "invalid digit found in string"
    );
    assert_eq!(
        GeometryError::Number(NumberError::PosOverflow).message(),
        "number too large to fit in target type"
    );
    assert_eq!(
        GeometryError::Number(NumberError::NegOverflow).message(),
        "number too small to fit in target type"
    );
}

#[test]
fn the_first_failure_of_a_geometry_is_reported() {
    // The overflow comes before the letter.
    assert_eq!(
        parse_geometry("99999999999a 0 1 1"),
        Err(GeometryError::Number(NumberError::PosOverflow))
    );
    // The letter comes before the overflow.
    assert_eq!(
        parse_geometry("9a9999999999 0 1 1"),
        Err(GeometryError::Number(NumberError::InvalidDigit))
    );
    // A bad first field comes before a missing separator.
    assert_eq!(parse_geometry("a,"), Err(GeometryError::Number(NumberError::InvalidDigit)));
    assert_eq!(parse_geometry("1,"), Err(GeometryError::Invalid));
}

#[test]
fn geometry_reads_as_the_standard_library_splits_and_parses() {
    let pieces = [
        "", " ", "  ", ",", "x", "-", "+", "0", "7", "12", "-3", "+4", "2147483647",
        "2147483648", "-2147483648", "-2147483649", "a", "1a", "\t", "\u{a0}", "00", "x1",
    ];
    let mut count = 0;
    for a in pieces {
        for b in pieces {
            for c in pieces {
                let text = format!("{a}{b}{c}");
                assert_eq!(parse_geometry(&text), with_std(&text), "{text:?}");
                for full in [
                    format!("{a},{b} {c}x5"),
                    format!("{a} {b} {c} 5"),
                    format!("1,2 {a}x{b}{c}"),
                    format!(" {a} 2 3 {b}{c} "),
                ] {
                    assert_eq!(parse_geometry(&full), with_std(&full), "{full:?}");
                    count += 1;
                }
            }
        }
    }
    assert_eq!(count, 4 * 22 * 22 * 22);
}

#[test]
fn white_space_is_what_unicode_says() {
    for code in 0..=0x10ffffu32 {
        if let Some(c) = char::from_u32(code) {
            assert_eq!(is_whitespace(c), c.is_whitespace(), "{code:#x}");
        }
    }
}

#[test]
fn extension_of_each_format() {
    assert_eq!(EncodingFormat::Jpg.extension(), "jpg");
    assert_eq!(EncodingFormat::Png.extension(), "png");
    assert_eq!(EncodingFormat::Ppm.extension(), "ppm");
    assert_eq!(EncodingFormat::Qoi.extension(), "qoi");
}

#[test]
fn format_of_each_extension() {
    assert_eq!(EncodingFormat::from_str("jpg"), Ok(EncodingFormat::Jpg));
    assert_eq!(EncodingFormat::from_str("jpeg"), Ok(EncodingFormat::Jpg));
    assert_eq!(EncodingFormat::from_str("png"), Ok(EncodingFormat::Png));
    assert_eq!(EncodingFormat::from_str("ppm"), Ok(EncodingFormat::Ppm));
    assert_eq!(EncodingFormat::from_str("qoi"), Ok(EncodingFormat::Qoi));
    for format in
        [EncodingFormat::Jpg, EncodingFormat::Png, EncodingFormat::Ppm, EncodingFormat::Qoi]
    {
        assert_eq!(EncodingFormat::from_str(format.extension()), Ok(format));
    }
}

#[test]
fn format_of_an_unsupported_extension() {
    for text in ["", "PNG", "gif", "png ", ".png", "jp"] {
        let r = EncodingFormat::from_str(text);
        assert_eq!(r, Err(EncodingError::UnsupportedExtension(text.to_string())));
    }
    assert_eq!(
        EncodingError::UnsupportedExtension("gif".to_string()).message("shot.gif"),
        "unsupported extension 'gif'"
    );
}

#[test]
fn format_by_the_extension_of_a_path() {
    assert_eq!(
        EncodingFormat::from_path_extension(PathExtension::Text("jpeg")),
        Ok(EncodingFormat::Jpg)
    );
    assert_eq!(
        EncodingFormat::from_path_extension(PathExtension::Text("webp")),
        Err(EncodingError::UnsupportedExtension("webp".to_string()))
    );
    assert_eq!(
        EncodingFormat::from_path_extension(PathExtension::Missing),
        Err(EncodingError::NoExtension)
    );
    assert_eq!(
        EncodingFormat::from_path_extension(PathExtension::NotUnicode),
        Err(EncodingError::ExtensionNotUnicode)
    );
    assert_eq!(
        EncodingError::NoExtension.message("/tmp/shot"),
        "no extension in /tmp/shot to deduce encoding format"
    );
    assert_eq!(
        EncodingError::ExtensionNotUnicode.message("/tmp/shot"),
        "extension in /tmp/shot is not valid unicode"
    );
}

#[test]
fn default_file_name_is_the_seconds_and_the_extension() {
    assert_eq!(get_default_file_name(1700000000, EncodingFormat::Png), "1700000000-wayshot.png");
    assert_eq!(get_default_file_name(0, EncodingFormat::Jpg), "0-wayshot.jpg");
    assert_eq!(get_default_file_name(9, EncodingFormat::Ppm), "9-wayshot.ppm");
    assert_eq!(get_default_file_name(10, EncodingFormat::Qoi), "10-wayshot.qoi");
    assert_eq!(
        get_default_file_name(u64::MAX, EncodingFormat::Png),
        "18446744073709551615-wayshot.png"
    );
    for seconds in [1u64, 99, 100, 101, 1234567890, 9_999_999_999, 10_000_000_000] {
        assert_eq!(
            get_default_file_name(seconds, EncodingFormat::Qoi),
            format!("{seconds}-wayshot.qoi")
        );
    }
}
