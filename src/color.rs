use vstd::prelude::*;

use itertools::Itertools;

verus! {

/// What went wrong when a color or a color table could not be produced.
#[derive(PartialEq, Eq, Structural, Debug, Clone, Copy)]
pub enum ErrorKind {
    /// The hex text has fewer than two characters.
    TooShort,
    /// The hex text has neither seven nor eight characters, or a digit is not hexadecimal.
    Format,
    /// The configuration text could not be read.
    SourceNotFound,
}

/// The message that goes with each kind of error.
pub open spec fn description_of(kind: ErrorKind) -> Seq<char> {
    match kind {
        ErrorKind::TooShort => "Too few chars"@,
        ErrorKind::Format => "Incorrect hex format"@,
        ErrorKind::SourceNotFound => "String not found"@,
    }
}

/// An error of this library, told apart by its kind.
#[derive(PartialEq, Eq, Structural, Debug, Clone, Copy)]
pub struct ColorError {
    pub kind: ErrorKind,
}

impl ColorError {
    /// An error of the given kind.
    pub fn new(kind: ErrorKind) -> (e: ColorError)
        ensures
            e.kind == kind,
    {
        ColorError { kind }
    }

    /// A short human-readable message for this error.
    pub fn description(&self) -> (r: &'static str)
        ensures
            r@ == description_of(self.kind),
    {
        match self.kind {
            ErrorKind::TooShort => "Too few chars",
            ErrorKind::Format => "Incorrect hex format",
            ErrorKind::SourceNotFound => "String not found",
        }
    }
}

/// The value of a hexadecimal digit (`0`-`9`, `a`-`f`, `A`-`F`), if it is one.
pub open spec fn hex_digit_value(c: char) -> Option<u8> {
    let v = c as u32;
    if 48 <= v <= 57 {
        Some((v - 48) as u8)
    } else if 97 <= v <= 102 {
        Some((v - 87) as u8)
    } else if 65 <= v <= 70 {
        Some((v - 55) as u8)
    } else {
        None
    }
}

/// The byte written by two hexadecimal digits, high digit first.
pub open spec fn hex_byte(hi: char, lo: char) -> Option<u8> {
    match (hex_digit_value(hi), hex_digit_value(lo)) {
        (Some(h), Some(l)) => Some((16 * h + l) as u8),
        _ => None,
    }
}

/// What parsing `s` as `#RRGGBB` or `0xRRGGBB` gives. The prefix is told by the
/// length alone and skipped; the six characters after it are the digits, and the
/// alpha channel is opaque.
pub open spec fn hex_color(s: Seq<char>) -> Result<Color, ErrorKind> {
    if s.len() < 2 {
        Err(ErrorKind::TooShort)
    } else if s.len() != 7 && s.len() != 8 {
        Err(ErrorKind::Format)
    } else {
        let o: int = if s.len() == 7 { 1 } else { 2 };
        match (hex_byte(s[o], s[o + 1]), hex_byte(s[o + 2], s[o + 3]), hex_byte(s[o + 4], s[o + 5])) {
            (Some(r), Some(g), Some(b)) => Ok(Color { r, g, b, a: 255 }),
            _ => Err(ErrorKind::Format),
        }
    }
}

/// The value of the digit at `i` of `d`, where it is a hexadecimal digit.
pub open spec fn digit_at(d: Seq<char>, i: int) -> u8 {
    hex_digit_value(d[i])->Some_0
}

/// Six hexadecimal digits.
pub open spec fn six_hex_digits(d: Seq<char>) -> bool {
    &&& d.len() == 6
    &&& forall|i: int| 0 <= i < 6 ==> hex_digit_value(#[trigger] d[i]) is Some
}

/// Every `#RRGGBB` text whose six digits are hexadecimal parses to the color of
/// the three bytes they write, high digit first, with alpha 255.
pub proof fn lemma_hash_form_parses(digits: Seq<char>)
    requires
        six_hex_digits(digits),
    ensures
        hex_color(seq!['#'] + digits) matches Ok(c) && c@ == (
            (16 * digit_at(digits, 0) + digit_at(digits, 1)) as u8,
            (16 * digit_at(digits, 2) + digit_at(digits, 3)) as u8,
            (16 * digit_at(digits, 4) + digit_at(digits, 5)) as u8,
            255u8,
        ),
{
    let s = seq!['#'] + digits;
    assert(s.len() == 7);
    assert forall|i: int| 0 <= i < 6 implies s[1 + i] == digits[i] by {}
    assert(hex_digit_value(digits[0]) is Some);
    assert(hex_digit_value(digits[1]) is Some);
    assert(hex_digit_value(digits[2]) is Some);
    assert(hex_digit_value(digits[3]) is Some);
    assert(hex_digit_value(digits[4]) is Some);
    assert(hex_digit_value(digits[5]) is Some);
}

/// The `#` and `0x` forms agree: the same six characters after either prefix
/// give the same result, color or error.
pub proof fn lemma_prefixes_agree(digits: Seq<char>)
    requires
        digits.len() == 6,
    ensures
        hex_color(seq!['#'] + digits) == hex_color(seq!['0', 'x'] + digits),
{
    let s = seq!['#'] + digits;
    let t = seq!['0', 'x'] + digits;
    assert(s.len() == 7 && t.len() == 8);
    assert forall|i: int| 0 <= i < 6 implies s[1 + i] == digits[i] && t[2 + i] == digits[i] by {}
}

/// Two colors built from channel tuples are equal exactly when the tuples are:
/// colors compare by value.
pub proof fn lemma_equal_by_channels(c1: Color, c2: Color, t1: (u8, u8, u8, u8), t2: (u8, u8, u8, u8))
    requires
        c1@ == t1,
        c2@ == t2,
    ensures
        c1 == c2 <==> t1 == t2,
{
}

/// Relies on itertools' `collect_vec`, which collects an iterator into a `Vec` in
/// its order: here the characters of `s`.
#[verifier::external_body]
fn chars_of(s: &str) -> (r: Vec<char>)
    ensures
        r@ == s@,
{
    s.chars().collect_vec()
}

fn hex_digit(c: char) -> (r: Option<u8>)
    ensures
        r == hex_digit_value(c),
        r matches Some(v) ==> v < 16,
{
    let v = c as u32;
    if 48 <= v && v <= 57 {
        Some((v - 48) as u8)
    } else if 97 <= v && v <= 102 {
        Some((v - 87) as u8)
    } else if 65 <= v && v <= 70 {
        Some((v - 55) as u8)
    } else {
        None
    }
}

fn hex_pair(hi: char, lo: char) -> (r: Option<u8>)
    ensures
        r == hex_byte(hi, lo),
{
    match (hex_digit(hi), hex_digit(lo)) {
        (Some(h), Some(l)) => Some(16 * h + l),
        _ => None,
    }
}

/// A color as four 8-bit channels: red, green, blue and alpha.
#[derive(PartialEq, Eq, Structural, Debug, Clone, Copy)]
pub struct Color {
    pub r: u8,
    pub g: u8,
    pub b: u8,
    pub a: u8,
}

impl View for Color {
    type V = (u8, u8, u8, u8);

    open spec fn view(&self) -> (u8, u8, u8, u8) {
        (self.r, self.g, self.b, self.a)
    }
}

impl Color {
    /// Builds a color from its `(r, g, b, a)` channels.
    pub fn new(colors: (u8, u8, u8, u8)) -> (c: Color)
        ensures
            c@ == colors,
    {
        Color { r: colors.0, g: colors.1, b: colors.2, a: colors.3 }
    }

    /// Parses `#RRGGBB` (seven characters) or `0xRRGGBB` (eight characters); the
    /// alpha channel is 255. Fewer than two characters is `TooShort`; any other
    /// length, or a character among the six digits that is not hexadecimal, is
    /// `Format`.
    pub fn from_hex(hex_code: &str) -> (res: Result<Color, ColorError>)
        ensures
            match res {
                Ok(c) => hex_color(hex_code@) == Ok::<Color, ErrorKind>(c),
                Err(e) => hex_color(hex_code@) == Err::<Color, ErrorKind>(e.kind),
            },
    {
        let chars = chars_of(hex_code);
        if chars.len() < 2 {
            return Err(ColorError::new(ErrorKind::TooShort));
        }
        let offset: usize;
        if chars.len() == 7 {
            offset = 1;
        } else if chars.len() == 8 {
            offset = 2;
        } else {
            return Err(ColorError::new(ErrorKind::Format));
        }
        let r = hex_pair(chars[offset], chars[offset + 1]);
        let g = hex_pair(chars[offset + 2], chars[offset + 3]);
        let b = hex_pair(chars[offset + 4], chars[offset + 5]);
        match (r, g, b) {
            (Some(r), Some(g), Some(b)) => Ok(Color { r, g, b, a: 255 }),
            _ => Err(ColorError::new(ErrorKind::Format)),
        }
    }
}

/// A color with a name: four channels beside the name they go by.
pub struct NamedColor {
    pub name: String,
    pub r: u8,
    pub g: u8,
    pub b: u8,
    pub a: u8,
}

impl NamedColor {
    /// Names the `(r, g, b, a)` channels `name`.
    pub fn new(name: &str, colors: (u8, u8, u8, u8)) -> (c: NamedColor)
        ensures
            c.name@ == name@,
            (c.r, c.g, c.b, c.a) == colors,
    {
        NamedColor { name: name.to_owned(), r: colors.0, g: colors.1, b: colors.2, a: colors.3 }
    }
}

impl From<NamedColor> for Color {
    /// The channels of a named color, without its name.
    fn from(value: NamedColor) -> (c: Color) {
        Color { r: value.r, g: value.g, b: value.b, a: value.a }
    }
}

impl vstd::std_specs::convert::FromSpecImpl<NamedColor> for Color {
    open spec fn obeys_from_spec() -> bool {
        true
    }

    open spec fn from_spec(v: NamedColor) -> Color {
        Color { r: v.r, g: v.g, b: v.b, a: v.a }
    }
}

} // verus!
