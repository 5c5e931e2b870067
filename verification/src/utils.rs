//! Reading of geometries, encoding formats and file names, as a command
//! line needs them.

use crate::region::CaptureRegion;
use vstd::prelude::*;
use vstd::string::StringExecFns;

verus! {

broadcast use vstd::string::group_string_axioms;

/// Why a run of characters is not a 32-bit signed number.
#[derive(Debug, Copy, Clone, PartialEq, Eq, Structural)]
pub enum NumberError {
    /// There is no character at all.
    Empty,
    /// A character is not a decimal digit, or a sign stands alone.
    InvalidDigit,
    /// The number is above the largest 32-bit signed value.
    PosOverflow,
    /// The number is below the smallest 32-bit signed value.
    NegOverflow,
}

/// Why a text is not a geometry.
#[derive(Debug, Copy, Clone, PartialEq, Eq, Structural)]
pub enum GeometryError {
    /// A separator is missing.
    Invalid,
    /// The width or the height is negative.
    NegativeSize,
    /// One of the four fields is not a number.
    Number(NumberError),
}

/// White space as Unicode defines it.
pub open spec fn spec_is_whitespace(c: char) -> bool {
    let n = c as u32;
    ||| 0x09 <= n <= 0x0d
    ||| n == 0x20
    ||| n == 0x85
    ||| n == 0xa0
    ||| n == 0x1680
    ||| 0x2000 <= n <= 0x200a
    ||| n == 0x2028
    ||| n == 0x2029
    ||| n == 0x202f
    ||| n == 0x205f
    ||| n == 0x3000
}

/// Whether the character is white space.
pub fn is_whitespace(c: char) -> (r: bool)
    ensures
        r == spec_is_whitespace(c),
{
    let n: u32 = c as u32;
    (0x09 <= n && n <= 0x0d) || n == 0x20 || n == 0x85 || n == 0xa0 || n == 0x1680 || (0x2000 <= n
        && n <= 0x200a) || n == 0x2028 || n == 0x2029 || n == 0x202f || n == 0x205f || n == 0x3000
}

/// The text without the white space at its start.
pub open spec fn trim_start(s: Seq<char>) -> Seq<char>
    decreases s.len(),
{
    if s.len() > 0 && spec_is_whitespace(s[0]) {
        trim_start(s.drop_first())
    } else {
        s
    }
}

/// The text without the white space at its end.
pub open spec fn trim_end(s: Seq<char>) -> Seq<char>
    decreases s.len(),
{
    if s.len() > 0 && spec_is_whitespace(s.last()) {
        trim_end(s.drop_last())
    } else {
        s
    }
}

/// The text without the white space at its start and at its end.
pub open spec fn spec_trim(s: Seq<char>) -> Seq<char> {
    trim_end(trim_start(s))
}

/// Position of the first `c` in the text, from position `from` on.
pub open spec fn find_char(s: Seq<char>, c: char, from: int) -> Option<int>
    decreases s.len() - from,
{
    if from < 0 || from >= s.len() {
        None
    } else if s[from] == c {
        Some(from)
    } else {
        find_char(s, c, from + 1)
    }
}

/// The text before and the text after the first `c`, where there is one.
pub open spec fn spec_split_once(s: Seq<char>, c: char) -> Option<(Seq<char>, Seq<char>)> {
    match find_char(s, c, 0) {
        Some(i) => Some((s.subrange(0, i), s.subrange(i + 1, s.len() as int))),
        None => None,
    }
}

/// Whether the character is one of `0` to `9`.
pub open spec fn is_digit(c: char) -> bool {
    '0' <= c <= '9'
}

/// The number that a run of digits stands for, read from the left, with a
/// minus sign before it where `negative`. Reading stops at the first
/// character that is no digit, and at the first digit with which the number
/// leaves the 32-bit signed range.
pub open spec fn parse_digits(s: Seq<char>, negative: bool) -> Result<int, NumberError>
    decreases s.len(),
{
    if s.len() == 0 {
        Ok(0)
    } else {
        match parse_digits(s.drop_last(), negative) {
            Err(error) => Err(error),
            Ok(value) => if !is_digit(s.last()) {
                Err(NumberError::InvalidDigit)
            } else {
                let digit = s.last() as int - '0' as int;
                let next = if negative {
                    10 * value - digit
                } else {
                    10 * value + digit
                };
                if next > i32::MAX {
                    Err(NumberError::PosOverflow)
                } else if next < i32::MIN {
                    Err(NumberError::NegOverflow)
                } else {
                    Ok(next)
                }
            },
        }
    }
}

/// The 32-bit signed number that a text stands for: an optional `+` or `-`
/// and then decimal digits, at least one, and nothing else.
pub open spec fn spec_parse_i32(s: Seq<char>) -> Result<int, NumberError> {
    if s.len() == 0 {
        Err(NumberError::Empty)
    } else if s[0] == '+' || s[0] == '-' {
        if s.len() == 1 {
            Err(NumberError::InvalidDigit)
        } else {
            parse_digits(s.skip(1), s[0] == '-')
        }
    } else {
        parse_digits(s, false)
    }
}

/// Four numbers with `first`, `second` and `third` between them, read from
/// the left; each separator is the first of its kind after the one before.
pub open spec fn parse_fields(s: Seq<char>, first: char, second: char, third: char) -> Result<
    CaptureRegion,
    GeometryError,
> {
    match spec_split_once(s, first) {
        None => Err(GeometryError::Invalid),
        Some((head, tail)) => match spec_parse_i32(head) {
            Err(error) => Err(GeometryError::Number(error)),
            Ok(x) => match spec_split_once(tail, second) {
                None => Err(GeometryError::Invalid),
                Some((head, tail)) => match spec_parse_i32(head) {
                    Err(error) => Err(GeometryError::Number(error)),
                    Ok(y) => match spec_split_once(tail, third) {
                        None => Err(GeometryError::Invalid),
                        Some((head, tail)) => match spec_parse_i32(head) {
                            Err(error) => Err(GeometryError::Number(error)),
                            Ok(width) => match spec_parse_i32(tail) {
                                Err(error) => Err(GeometryError::Number(error)),
                                Ok(height) => Ok(
                                    CaptureRegion {
                                        x_coordinate: x as i32,
                                        y_coordinate: y as i32,
                                        width: width as i32,
                                        height: height as i32,
                                    },
                                ),
                            },
                        },
                    },
                },
            },
        },
    }
}

/// The four numbers of a geometry text. Without the white space around it,
/// the text reads `x,y widthxheight` where it holds a comma, and
/// `x y width height` otherwise.
pub open spec fn parse_numbers(g: Seq<char>) -> Result<CaptureRegion, GeometryError> {
    let text = spec_trim(g);
    if text.contains(',') {
        parse_fields(text, ',', ' ', 'x')
    } else {
        parse_fields(text, ' ', ' ', ' ')
    }
}

/// The region that a geometry text stands for: its four numbers, where they
/// can be read and neither the width nor the height is negative.
pub open spec fn spec_parse_geometry(g: Seq<char>) -> Result<CaptureRegion, GeometryError> {
    match parse_numbers(g) {
        Ok(region) => if region.spec_is_valid() {
            Ok(region)
        } else {
            Err(GeometryError::NegativeSize)
        },
        Err(error) => Err(error),
    }
}

/// The characters of a text.
fn chars_of(s: &str) -> (v: Vec<char>)
    ensures
        v@ == s@,
{
    let mut v: Vec<char> = Vec::new();
    for c in it: s.chars()
        invariant
            it.seq() == s@,
            v@ == it.seq().take(it.index() as int),
    {
        v.push(c);
    }
    v
}

/// The characters from position `from` up to position `to`.
fn copy_range(s: &Vec<char>, from: usize, to: usize) -> (v: Vec<char>)
    requires
        from <= to <= s@.len(),
    ensures
        v@ == s@.subrange(from as int, to as int),
{
    let mut v: Vec<char> = Vec::new();
    let mut i: usize = from;
    while i < to
        invariant
            from <= i <= to <= s@.len(),
            v@ == s@.subrange(from as int, i as int),
        decreases to - i,
    {
        v.push(s[i]);
        i += 1;
    }
    v
}

/// The text without the white space around it.
fn trim(s: &Vec<char>) -> (v: Vec<char>)
    ensures
        v@ == spec_trim(s@),
{
    let mut from: usize = 0;
    assert(s@.skip(0) =~= s@);
    while from < s.len() && is_whitespace(s[from])
        invariant
            from <= s@.len(),
            trim_start(s@) == trim_start(s@.skip(from as int)),
        decreases s@.len() - from,
    {
        assert(s@.skip(from as int).drop_first() =~= s@.skip(from + 1));
        from += 1;
    }
    let ghost rest = s@.skip(from as int);
    let mut to: usize = s.len();
    assert(rest.take(to - from) =~= rest);
    while to > from && is_whitespace(s[to - 1])
        invariant
            from <= to <= s@.len(),
            rest == s@.skip(from as int),
            trim_end(rest) == trim_end(rest.take(to - from)),
        decreases to,
    {
        assert(rest.take(to - from).drop_last() =~= rest.take(to - from - 1));
        to -= 1;
    }
    copy_range(s, from, to)
}

/// The text before and the text after the first `c`, where there is one.
fn split_once(s: &Vec<char>, c: char) -> (r: Option<(Vec<char>, Vec<char>)>)
    ensures
        match spec_split_once(s@, c) {
            Some((head, tail)) => r matches Some(parts) && parts.0@ == head && parts.1@ == tail,
            None => r is None,
        },
{
    let mut i: usize = 0;
    while i < s.len()
        invariant
            i <= s@.len(),
            find_char(s@, c, 0) == find_char(s@, c, i as int),
        decreases s@.len() - i,
    {
        if s[i] == c {
            return Some((copy_range(s, 0, i), copy_range(s, i + 1, s.len())));
        }
        i += 1;
    }
    None
}

/// The 32-bit signed number that the text stands for.
fn parse_i32(s: &Vec<char>) -> (r: Result<i32, NumberError>)
    ensures
        match spec_parse_i32(s@) {
            Ok(value) => r == Ok::<i32, NumberError>(value as i32) && i32::MIN <= value
                <= i32::MAX,
            Err(error) => r == Err::<i32, NumberError>(error),
        },
{
    if s.len() == 0 {
        return Err(NumberError::Empty);
    }
    let signed = s[0] == '+' || s[0] == '-';
    if signed && s.len() == 1 {
        return Err(NumberError::InvalidDigit);
    }
    let negative = s[0] == '-';
    let start: usize = if signed {
        1
    } else {
        0
    };
    let ghost digits = s@.skip(start as int);
    assert(!signed ==> digits =~= s@);
    let mut value: i64 = 0;
    let mut i: usize = start;
    while i < s.len()
        invariant
            start <= i <= s@.len(),
            digits == s@.skip(start as int),
            spec_parse_i32(s@) == parse_digits(digits, negative),
            parse_digits(digits.take(i - start), negative) == Ok::<int, NumberError>(value as int),
            i32::MIN <= value <= i32::MAX,
        decreases s@.len() - i,
    {
        let c = s[i];
        proof {
            assert(digits.take(i + 1 - start).drop_last() =~= digits.take(i - start));
            lemma_parse_digits_error_stays(digits, i + 1 - start, negative);
        }
        if !(c >= '0' && c <= '9') {
            return Err(NumberError::InvalidDigit);
        }
        let digit: i64 = (c as u32 - '0' as u32) as i64;
        let next: i64 = if negative {
            10 * value - digit
        } else {
            10 * value + digit
        };
        if next > i32::MAX as i64 {
            return Err(NumberError::PosOverflow);
        }
        if next < i32::MIN as i64 {
            return Err(NumberError::NegOverflow);
        }
        value = next;
        i += 1;
    }
    assert(digits.take(i - start) =~= digits);
    Ok(value as i32)
}

/// A failure met while reading digits is the failure of the whole run.
proof fn lemma_parse_digits_error_stays(s: Seq<char>, n: int, negative: bool)
    requires
        0 <= n <= s.len(),
    ensures
        parse_digits(s.take(n), negative) is Err ==> parse_digits(s, negative) == parse_digits(
            s.take(n),
            negative,
        ),
    decreases s.len() - n,
{
    if n == s.len() {
        assert(s.take(n) =~= s);
    } else {
        assert(s.take(n + 1).drop_last() =~= s.take(n));
        lemma_parse_digits_error_stays(s, n + 1, negative);
    }
}

/// Reads four numbers with the given separators between them.
fn parse_with(s: &Vec<char>, first: char, second: char, third: char) -> (r: Result<
    CaptureRegion,
    GeometryError,
>)
    ensures
        r == parse_fields(s@, first, second, third),
{
    let (head, tail) = match split_once(s, first) {
        Some(parts) => parts,
        None => {
            return Err(GeometryError::Invalid);
        },
    };
    let x_coordinate = match parse_i32(&head) {
        Ok(value) => value,
        Err(error) => {
            return Err(GeometryError::Number(error));
        },
    };
    let (head, tail) = match split_once(&tail, second) {
        Some(parts) => parts,
        None => {
            return Err(GeometryError::Invalid);
        },
    };
    let y_coordinate = match parse_i32(&head) {
        Ok(value) => value,
        Err(error) => {
            return Err(GeometryError::Number(error));
        },
    };
    let (head, tail) = match split_once(&tail, third) {
        Some(parts) => parts,
        None => {
            return Err(GeometryError::Invalid);
        },
    };
    let width = match parse_i32(&head) {
        Ok(value) => value,
        Err(error) => {
            return Err(GeometryError::Number(error));
        },
    };
    let height = match parse_i32(&tail) {
        Ok(value) => value,
        Err(error) => {
            return Err(GeometryError::Number(error));
        },
    };
    Ok(CaptureRegion { x_coordinate, y_coordinate, width, height })
}

/// Whether the text holds `c`.
fn contains_char(s: &Vec<char>, c: char) -> (r: bool)
    ensures
        r == s@.contains(c),
{
    let mut i: usize = 0;
    while i < s.len()
        invariant
            i <= s@.len(),
            forall|j: int| 0 <= j < i ==> s@[j] != c,
        decreases s@.len() - i,
    {
        if s[i] == c {
            return true;
        }
        i += 1;
    }
    false
}

/// Reads a geometry: `x,y widthxheight` or `x y width height`, with any
/// white space around it. A text whose numbers cannot be read fails with
/// the first thing that is wrong with it; one whose numbers can be read
/// fails if its width or its height is negative, so that every region read
/// is valid.
pub fn parse_geometry(g: &str) -> (r: Result<CaptureRegion, GeometryError>)
    ensures
        r == spec_parse_geometry(g@),
        r matches Ok(region) ==> region.width >= 0 && region.height >= 0,
{
    let chars = chars_of(g);
    let tail = trim(&chars);
    let numbers = if contains_char(&tail, ',') {
        parse_with(&tail, ',', ' ', 'x')
    } else {
        parse_with(&tail, ' ', ' ', ' ')
    };
    match numbers {
        Ok(region) => if region.is_valid() {
            Ok(region)
        } else {
            Err(GeometryError::NegativeSize)
        },
        Err(error) => Err(error),
    }
}

impl NumberError {
    /// The text of each failure.
    pub open spec fn spec_message(self) -> Seq<char> {
        match self {
            NumberError::Empty => "cannot parse integer from empty string"@,
            NumberError::InvalidDigit => "invalid digit found in string"@,
            NumberError::PosOverflow => "number too large to fit in target type"@,
            NumberError::NegOverflow => "number too small to fit in target type"@,
        }
    }
}

impl GeometryError {
    /// The text of each failure.
    pub open spec fn spec_message(self) -> Seq<char> {
        match self {
            GeometryError::Invalid =>
                "Invalid geometry provided.\nValid geometries:\n1) %d,%d %dx%d\n2) %d %d %d %d"@,
            GeometryError::NegativeSize =>
                "Invalid geometry provided.\nWidth and height must not be negative."@,
            GeometryError::Number(error) => error.spec_message(),
        }
    }

    /// Human-readable description of the failure.
    pub fn message(&self) -> (text: String)
        ensures
            text@ == self.spec_message(),
    {
        match self {
            GeometryError::Invalid => String::from_str(
                "Invalid geometry provided.\nValid geometries:\n1) %d,%d %dx%d\n2) %d %d %d %d",
            ),
            GeometryError::NegativeSize => String::from_str(
                "Invalid geometry provided.\nWidth and height must not be negative.",
            ),
            GeometryError::Number(NumberError::Empty) => String::from_str(
                "cannot parse integer from empty string",
            ),
            GeometryError::Number(NumberError::InvalidDigit) => String::from_str(
                "invalid digit found in string",
            ),
            GeometryError::Number(NumberError::PosOverflow) => String::from_str(
                "number too large to fit in target type",
            ),
            GeometryError::Number(NumberError::NegOverflow) => String::from_str(
                "number too small to fit in target type",
            ),
        }
    }
}

/// Supported image encoding formats.
#[derive(Debug, Copy, Clone, PartialEq, Eq, Structural)]
pub enum EncodingFormat {
    /// JPG/JPEG encoder.
    Jpg,
    /// PNG encoder.
    Png,
    /// PPM encoder.
    Ppm,
    /// QOI encoder.
    Qoi,
}

/// The extension of a file's path, as far as it can be read.
#[derive(Debug, Copy, Clone, PartialEq, Eq)]
pub enum PathExtension<'a> {
    /// The path has no extension.
    Missing,
    /// The path has an extension that is not valid Unicode.
    NotUnicode,
    /// The extension, without its dot.
    Text(&'a str),
}

/// Why no encoding format can be had.
#[derive(Debug, Clone, PartialEq, Eq)]
pub enum EncodingError {
    /// The path has no extension to go by.
    NoExtension,
    /// The path's extension is not valid Unicode.
    ExtensionNotUnicode,
    /// No format goes by this extension.
    UnsupportedExtension(String),
}

/// Whether two texts hold the same characters.
fn str_equals(a: &str, b: &str) -> (r: bool)
    ensures
        r == (a@ == b@),
{
    a.to_owned() == b.to_owned()
}

impl EncodingFormat {
    /// The file extension of each format.
    pub open spec fn spec_extension(self) -> Seq<char> {
        match self {
            EncodingFormat::Jpg => "jpg"@,
            EncodingFormat::Png => "png"@,
            EncodingFormat::Ppm => "ppm"@,
            EncodingFormat::Qoi => "qoi"@,
        }
    }

    /// The file extension of the format.
    pub fn extension(self) -> (r: &'static str)
        ensures
            r@ == self.spec_extension(),
    {
        match self {
            EncodingFormat::Jpg => "jpg",
            EncodingFormat::Png => "png",
            EncodingFormat::Ppm => "ppm",
            EncodingFormat::Qoi => "qoi",
        }
    }

    /// The format that goes by an extension.
    pub open spec fn spec_from_str(s: Seq<char>) -> Option<EncodingFormat> {
        if s == "jpg"@ || s == "jpeg"@ {
            Some(EncodingFormat::Jpg)
        } else if s == "png"@ {
            Some(EncodingFormat::Png)
        } else if s == "ppm"@ {
            Some(EncodingFormat::Ppm)
        } else if s == "qoi"@ {
            Some(EncodingFormat::Qoi)
        } else {
            None
        }
    }

    /// The format that goes by the extension `s`; fails, naming `s`, where
    /// none does.
    pub fn from_str(s: &str) -> (r: Result<EncodingFormat, EncodingError>)
        ensures
            match EncodingFormat::spec_from_str(s@) {
                Some(format) => r matches Ok(f) && f == format,
                None => r matches Err(EncodingError::UnsupportedExtension(text)) && text@ == s@,
            },
    {
        if str_equals(s, "jpg") || str_equals(s, "jpeg") {
            Ok(EncodingFormat::Jpg)
        } else if str_equals(s, "png") {
            Ok(EncodingFormat::Png)
        } else if str_equals(s, "ppm") {
            Ok(EncodingFormat::Ppm)
        } else if str_equals(s, "qoi") {
            Ok(EncodingFormat::Qoi)
        } else {
            Err(EncodingError::UnsupportedExtension(s.to_owned()))
        }
    }

    /// The format to encode a file in, by the extension of its path.
    pub fn from_path_extension(extension: PathExtension) -> (r: Result<
        EncodingFormat,
        EncodingError,
    >)
        ensures
            match extension {
                PathExtension::Missing => r matches Err(EncodingError::NoExtension),
                PathExtension::NotUnicode => r matches Err(EncodingError::ExtensionNotUnicode),
                PathExtension::Text(s) => match EncodingFormat::spec_from_str(s@) {
                    Some(format) => r matches Ok(f) && f == format,
                    None => r matches Err(EncodingError::UnsupportedExtension(text)) && text@
                        == s@,
                },
            },
    {
        match extension {
            PathExtension::Missing => Err(EncodingError::NoExtension),
            PathExtension::NotUnicode => Err(EncodingError::ExtensionNotUnicode),
            PathExtension::Text(s) => EncodingFormat::from_str(s),
        }
    }
}

/// Every format is the one that goes by its own extension.
pub proof fn lemma_extension_round_trip(format: EncodingFormat)
    ensures
        EncodingFormat::spec_from_str(format.spec_extension()) == Some(format),
{
    reveal_strlit("jpg");
    reveal_strlit("jpeg");
    reveal_strlit("png");
    reveal_strlit("ppm");
    reveal_strlit("qoi");
    match format {
        EncodingFormat::Jpg => {},
        EncodingFormat::Png => {
            assert("png"@[0] != "jpg"@[0]);
            assert("png"@[0] != "jpeg"@[0]);
        },
        EncodingFormat::Ppm => {
            assert("ppm"@[0] != "jpg"@[0]);
            assert("ppm"@[0] != "jpeg"@[0]);
            assert("ppm"@[1] != "png"@[1]);
        },
        EncodingFormat::Qoi => {
            assert("qoi"@[0] != "jpg"@[0]);
            assert("qoi"@[0] != "jpeg"@[0]);
            assert("qoi"@[0] != "png"@[0]);
            assert("qoi"@[0] != "ppm"@[0]);
        },
    }
}

impl EncodingError {
    /// The text of each failure, for a file at `path`.
    pub open spec fn spec_message(self, path: Seq<char>) -> Seq<char> {
        match self {
            EncodingError::NoExtension => "no extension in "@ + path
                + " to deduce encoding format"@,
            EncodingError::ExtensionNotUnicode => "extension in "@ + path
                + " is not valid unicode"@,
            EncodingError::UnsupportedExtension(text) => "unsupported extension '"@ + text@ + "'"@,
        }
    }

    /// Human-readable description of the failure, for a file at `path`.
    pub fn message(&self, path: &str) -> (text: String)
        ensures
            text@ == self.spec_message(path@),
    {
        match self {
            EncodingError::NoExtension => String::from_str("no extension in ").concat(path).concat(
                " to deduce encoding format",
            ),
            EncodingError::ExtensionNotUnicode => String::from_str("extension in ").concat(
                path,
            ).concat(" is not valid unicode"),
            EncodingError::UnsupportedExtension(text) => String::from_str(
                "unsupported extension '",
            ).concat(text.as_str()).concat("'"),
        }
    }
}

/// The character of a decimal digit.
pub open spec fn digit_char(digit: int) -> char {
    ('0' as int + digit) as char
}

/// The decimal digits of a number, without leading zeros.
pub open spec fn decimal(n: nat) -> Seq<char>
    decreases n,
{
    if n < 10 {
        seq![digit_char(n as int)]
    } else {
        decimal(n / 10).push(digit_char((n % 10) as int))
    }
}

/// The text of one decimal digit.
fn digit_str(digit: u64) -> (r: &'static str)
    requires
        digit < 10,
    ensures
        r@ == seq![digit_char(digit as int)],
{
    proof {
        reveal_strlit("0");
        reveal_strlit("1");
        reveal_strlit("2");
        reveal_strlit("3");
        reveal_strlit("4");
        reveal_strlit("5");
        reveal_strlit("6");
        reveal_strlit("7");
        reveal_strlit("8");
        reveal_strlit("9");
    }
    let r = if digit == 0 {
        "0"
    } else if digit == 1 {
        "1"
    } else if digit == 2 {
        "2"
    } else if digit == 3 {
        "3"
    } else if digit == 4 {
        "4"
    } else if digit == 5 {
        "5"
    } else if digit == 6 {
        "6"
    } else if digit == 7 {
        "7"
    } else if digit == 8 {
        "8"
    } else {
        "9"
    };
    r
}

/// Writes the decimal digits of `n` at the end of `text`.
fn push_decimal(text: &mut String, n: u64)
    ensures
        final(text)@ == old(text)@ + decimal(n as nat),
    decreases n,
{
    if n >= 10 {
        push_decimal(text, n / 10);
    }
    text.append(digit_str(n % 10));
}

/// The name of a screenshot taken `seconds` after the epoch, when none is
/// given: the seconds, `-wayshot.` and the extension of the format.
pub open spec fn spec_get_default_file_name(seconds: u64, extension: EncodingFormat) -> Seq<char> {
    decimal(seconds as nat) + "-wayshot."@ + extension.spec_extension()
}

/// The name under which a screenshot taken `seconds` after the epoch is
/// saved when no name is given.
pub fn get_default_file_name(seconds: u64, extension: EncodingFormat) -> (name: String)
    ensures
        name@ == spec_get_default_file_name(seconds, extension),
{
    let mut name = String::new();
    push_decimal(&mut name, seconds);
    name.append("-wayshot.");
    name.append(extension.extension());
    name
}

} // verus!
