//! Colors and the literals that denote them.
//!
//! A color literal is `#RRGGBB` or `#RRGGBBAA` with hexadecimal digits in
//! either case, or `rgb(r,g,b)` or `rgba(r,g,b,a)` with decimal channels from
//! 0 to 255. Where a literal gives no alpha channel, the color is opaque.

use crate::config::errors::{Error, ErrorView};
use crate::numeric::{parse_u8, unsigned_value};
use crate::text::{chars_of, has_prefix, push_char, split, split_at_char, starts_with};
use vstd::prelude::*;
use vstd::slice::slice_subrange;
use vstd::string::StringExecFns;

verus! {

/// A color of four channels, each from 0 to 255. Alpha 255 is opaque.
#[derive(PartialEq, Eq, Debug, Clone, Copy, Structural)]
pub struct Color {
    pub red: u8,
    pub green: u8,
    pub blue: u8,
    pub alpha: u8,
}

impl Color {
    /// Opaque black.
    pub open spec fn spec_black() -> Color {
        Color { red: 0, green: 0, blue: 0, alpha: 255 }
    }

    /// Opaque white.
    pub open spec fn spec_white() -> Color {
        Color { red: 255, green: 255, blue: 255, alpha: 255 }
    }

    /// Black that lets everything through.
    pub open spec fn spec_transparent() -> Color {
        Color { red: 0, green: 0, blue: 0, alpha: 0 }
    }

    /// Opaque black.
    #[verifier::when_used_as_spec(spec_black)]
    pub fn black() -> (c: Self)
        ensures
            c == Self::spec_black(),
    {
        Color { red: 0, green: 0, blue: 0, alpha: 255 }
    }

    /// Opaque white.
    #[verifier::when_used_as_spec(spec_white)]
    pub fn white() -> (c: Self)
        ensures
            c == Self::spec_white(),
    {
        Color { red: 255, green: 255, blue: 255, alpha: 255 }
    }

    /// Black that lets everything through.
    #[verifier::when_used_as_spec(spec_transparent)]
    pub fn transparent() -> (c: Self)
        ensures
            c == Self::spec_transparent(),
    {
        Color { red: 0, green: 0, blue: 0, alpha: 0 }
    }

    /// The opaque color of the three channels.
    pub fn rgb(r: u8, g: u8, b: u8) -> (c: Self)
        ensures
            c == (Color { red: r, green: g, blue: b, alpha: 255 }),
    {
        Color { red: r, green: g, blue: b, alpha: 255 }
    }

    /// The color of the four channels.
    pub fn rgba(r: u8, g: u8, b: u8, a: u8) -> (c: Self)
        ensures
            c == (Color { red: r, green: g, blue: b, alpha: a }),
    {
        Color { red: r, green: g, blue: b, alpha: a }
    }
}

/// The number a hexadecimal digit stands for, in either case.
pub open spec fn hex_value(c: char) -> Option<u8> {
    if '0' <= c <= '9' {
        Some((c as u8 - '0' as u8) as u8)
    } else if 'a' <= c <= 'f' {
        Some((c as u8 - 'a' as u8 + 10) as u8)
    } else if 'A' <= c <= 'F' {
        Some((c as u8 - 'A' as u8 + 10) as u8)
    } else {
        None
    }
}

/// What is reported of a character that is no hexadecimal digit.
pub open spec fn hex_error(c: char) -> ErrorView {
    ErrorView::InvalidColor("Hex "@.push(c))
}

/// The least index `i >= from` at which `s` holds no hexadecimal digit, or
/// `s.len()` where it holds only such digits from `from` on.
pub open spec fn bad_hex_from(s: Seq<char>, from: int) -> int
    decreases s.len() - from,
{
    if from < 0 || from >= s.len() {
        s.len() as int
    } else if hex_value(s[from]) is None {
        from
    } else {
        bad_hex_from(s, from + 1)
    }
}

/// The byte that the two hexadecimal digits at `at` and `at + 1` denote.
pub open spec fn hex_byte(s: Seq<char>, at: int) -> u8 {
    (hex_value(s[at]).unwrap() * 16 + hex_value(s[at + 1]).unwrap()) as u8
}

/// The color that a literal with a leading `#` denotes.
///
/// The literal must be 7 or 9 characters long, else it is reported as it
/// stands. Each character behind the `#` must be a hexadecimal digit, else
/// the first that is not is reported. The digits are read in pairs: red,
/// green, blue, and alpha where there is a fourth pair.
pub open spec fn hex_color(input: Seq<char>) -> Result<Color, ErrorView> {
    if input.len() != 7 && input.len() != 9 {
        Err(ErrorView::InvalidColor(input))
    } else if bad_hex_from(input, 1) < input.len() {
        Err(hex_error(input[bad_hex_from(input, 1)]))
    } else {
        Ok(
            Color {
                red: hex_byte(input, 1),
                green: hex_byte(input, 3),
                blue: hex_byte(input, 5),
                alpha: if input.len() == 9 {
                    hex_byte(input, 7)
                } else {
                    255
                },
            },
        )
    }
}

/// The channels that the fields of a functional literal denote, if the
/// literal is `name`, an opening bracket, fields separated by commas, and a
/// closing bracket, and every field is a decimal integer from 0 to 255.
pub open spec fn channels(input: Seq<char>, name: Seq<char>) -> Option<Seq<u8>> {
    let open = name.push('(');
    if starts_with(input, open) && input.len() > open.len() && input.last() == ')' {
        let fields = split(input.subrange(open.len() as int, input.len() - 1), ',');
        if forall|i: int| 0 <= i < fields.len() ==> unsigned_value(#[trigger] fields[i], 255) is Some {
            Some(Seq::new(fields.len(), |i: int| unsigned_value(fields[i], 255).unwrap() as u8))
        } else {
            None
        }
    } else {
        None
    }
}

/// The color that a literal `rgba(r,g,b,a)` denotes. Anything but four
/// channels is reported with the literal as it stands.
pub open spec fn rgba_color(input: Seq<char>) -> Result<Color, ErrorView> {
    match channels(input, "rgba"@) {
        Some(c) => if c.len() == 4 {
            Ok(Color { red: c[0], green: c[1], blue: c[2], alpha: c[3] })
        } else {
            Err(ErrorView::InvalidColor(input))
        },
        None => Err(ErrorView::InvalidColor(input)),
    }
}

/// The color that a literal `rgb(r,g,b)` denotes, which is opaque. Anything
/// but three channels is reported with the literal as it stands.
pub open spec fn rgb_color(input: Seq<char>) -> Result<Color, ErrorView> {
    match channels(input, "rgb"@) {
        Some(c) => if c.len() == 3 {
            Ok(Color { red: c[0], green: c[1], blue: c[2], alpha: 255 })
        } else {
            Err(ErrorView::InvalidColor(input))
        },
        None => Err(ErrorView::InvalidColor(input)),
    }
}

/// The color that the literal `input` denotes. Nothing is trimmed.
pub open spec fn color_of(input: Seq<char>) -> Result<Color, ErrorView> {
    if input.len() > 0 && input[0] == '#' {
        hex_color(input)
    } else if starts_with(input, "rgba"@) {
        rgba_color(input)
    } else if starts_with(input, "rgb"@) {
        rgb_color(input)
    } else {
        Err(ErrorView::InvalidColor(input))
    }
}

/// The mathematical value of a result that holds a color or an error.
pub open spec fn color_result_view(r: Result<Color, Error>) -> Result<Color, ErrorView> {
    match r {
        Ok(c) => Ok(c),
        Err(e) => Err(e@),
    }
}

/// The number a hexadecimal digit stands for, in either case.
pub fn hex_to_digit(ch: char) -> (r: Result<u8, Error>)
    ensures
        match r {
            Ok(d) => hex_value(ch) == Some(d),
            Err(e) => hex_value(ch) is None && e@ == hex_error(ch),
        },
{
    if '0' <= ch && ch <= '9' {
        Ok(ch as u8 - '0' as u8)
    } else if 'a' <= ch && ch <= 'f' {
        Ok(ch as u8 - 'a' as u8 + 10)
    } else if 'A' <= ch && ch <= 'F' {
        Ok(ch as u8 - 'A' as u8 + 10)
    } else {
        let mut text = String::new();
        text.append("Hex ");
        push_char(&mut text, ch);
        Err(Error::InvalidColor(text))
    }
}

/// The color that a literal with a leading `#` denotes.
pub fn parse_hex(input: &str) -> (r: Result<Color, Error>)
    ensures
        color_result_view(r) == hex_color(input@),
{
    let chars = chars_of(input);
    if chars.len() != 7 && chars.len() != 9 {
        return Err(Error::InvalidColor(input.to_owned()));
    }
    let mut digits: Vec<u8> = Vec::new();
    let mut i: usize = 1;
    while i < chars.len()
        invariant
            1 <= i <= chars.len(),
            chars@ == input@,
            chars.len() == 7 || chars.len() == 9,
            digits.len() == i - 1,
            bad_hex_from(input@, 1) == bad_hex_from(input@, i as int),
            forall|j: int|
                0 <= j < i - 1 ==> hex_value(input@[j + 1]) == Some(#[trigger] digits@[j]),
        decreases chars.len() - i,
    {
        match hex_to_digit(chars[i]) {
            Ok(d) => {
                digits.push(d);
            },
            Err(e) => {
                return Err(e);
            },
        }
        i += 1;
    }
    let red = digits[0] * 16 + digits[1];
    let green = digits[2] * 16 + digits[3];
    let blue = digits[4] * 16 + digits[5];
    let alpha = if digits.len() == 8 {
        digits[6] * 16 + digits[7]
    } else {
        255
    };
    Ok(Color::rgba(red, green, blue, alpha))
}

/// The channels of the functional literal `input` of the given `name`.
fn parse_channels(input: &[char], name: &str) -> (r: Option<Vec<u8>>)
    ensures
        match r {
            Some(c) => channels(input@, name@) == Some(c@),
            None => channels(input@, name@) is None,
        },
{
    let mut open = chars_of(name);
    open.push('(');
    if !has_prefix(input, open.as_slice()) || input.len() <= open.len() || input[input.len() - 1]
        != ')' {
        return None;
    }
    let inside = slice_subrange(input, open.len(), input.len() - 1);
    let fields = split_at_char(inside, ',');
    let ghost texts = split(inside@, ',');
    let mut out: Vec<u8> = Vec::new();
    let mut i: usize = 0;
    while i < fields.len()
        invariant
            i <= fields.len(),
            fields.deep_view() == texts,
            starts_with(input@, name@.push('(')),
            input@.len() > name@.len() + 1,
            input@.last() == ')',
            texts == split(input@.subrange(name@.len() as int + 1, input@.len() - 1), ','),
            out.len() == i,
            forall|j: int|
                0 <= j < i ==> unsigned_value(#[trigger] texts[j], 255) == Some(out@[j] as nat),
        decreases fields.len() - i,
    {
        assert(fields.deep_view()[i as int] =~= fields@[i as int]@);
        match parse_u8(fields[i].as_slice()) {
            Some(v) => {
                out.push(v);
            },
            None => {
                return None;
            },
        }
        i += 1;
    }
    assert(out@ =~= Seq::new(texts.len(), |i: int| unsigned_value(texts[i], 255).unwrap() as u8));
    Some(out)
}

/// The color that a literal `rgba(r,g,b,a)` denotes.
pub fn parse_rgba(input: &str) -> (r: Result<Color, Error>)
    ensures
        color_result_view(r) == rgba_color(input@),
{
    let chars = chars_of(input);
    match parse_channels(chars.as_slice(), "rgba") {
        Some(c) => {
            if c.len() == 4 {
                Ok(Color::rgba(c[0], c[1], c[2], c[3]))
            } else {
                Err(Error::InvalidColor(input.to_owned()))
            }
        },
        None => Err(Error::InvalidColor(input.to_owned())),
    }
}

/// The color that a literal `rgb(r,g,b)` denotes.
pub fn parse_rgb(input: &str) -> (r: Result<Color, Error>)
    ensures
        color_result_view(r) == rgb_color(input@),
{
    let chars = chars_of(input);
    match parse_channels(chars.as_slice(), "rgb") {
        Some(c) => {
            if c.len() == 3 {
                Ok(Color::rgb(c[0], c[1], c[2]))
            } else {
                Err(Error::InvalidColor(input.to_owned()))
            }
        },
        None => Err(Error::InvalidColor(input.to_owned())),
    }
}

/// The color that the literal `input` denotes.
///
/// A literal that starts with `#` is read as hexadecimal, one that starts
/// with `rgba` or `rgb` as functional. Any other text is reported as it
/// stands.
pub fn parse_color(input: &str) -> (r: Result<Color, Error>)
    ensures
        color_result_view(r) == color_of(input@),
{
    let chars = chars_of(input);
    let rgba = chars_of("rgba");
    let rgb = chars_of("rgb");
    if chars.len() > 0 && chars[0] == '#' {
        parse_hex(input)
    } else if has_prefix(chars.as_slice(), rgba.as_slice()) {
        parse_rgba(input)
    } else if has_prefix(chars.as_slice(), rgb.as_slice()) {
        parse_rgb(input)
    } else {
        Err(Error::InvalidColor(input.to_owned()))
    }
}

} // verus!
