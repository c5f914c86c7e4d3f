use vstd::prelude::*;

verus! {

/// One of the sixteen colors of the text-mode palette.
#[derive(Clone, Copy, Debug, PartialEq, Eq, Structural)]
pub enum Color {
    Black,
    Blue,
    Green,
    Cyan,
    Red,
    Magenta,
    Brown,
    LightGray,
    DarkGray,
    LightBlue,
    LightGreen,
    LightCyan,
    LightRed,
    Pink,
    Yellow,
    White,
}

/// The color of a 4-bit hardware code.
pub open spec fn color_of(n: u8) -> Color {
    if n == 0 { Color::Black }
    else if n == 1 { Color::Blue }
    else if n == 2 { Color::Green }
    else if n == 3 { Color::Cyan }
    else if n == 4 { Color::Red }
    else if n == 5 { Color::Magenta }
    else if n == 6 { Color::Brown }
    else if n == 7 { Color::LightGray }
    else if n == 8 { Color::DarkGray }
    else if n == 9 { Color::LightBlue }
    else if n == 10 { Color::LightGreen }
    else if n == 11 { Color::LightCyan }
    else if n == 12 { Color::LightRed }
    else if n == 13 { Color::Pink }
    else if n == 14 { Color::Yellow }
    else { Color::White }
}

impl Color {
    /// The 4-bit hardware code of the color.
    pub open spec fn code(self) -> u8 {
        match self {
            Color::Black => 0,
            Color::Blue => 1,
            Color::Green => 2,
            Color::Cyan => 3,
            Color::Red => 4,
            Color::Magenta => 5,
            Color::Brown => 6,
            Color::LightGray => 7,
            Color::DarkGray => 8,
            Color::LightBlue => 9,
            Color::LightGreen => 10,
            Color::LightCyan => 11,
            Color::LightRed => 12,
            Color::Pink => 13,
            Color::Yellow => 14,
            Color::White => 15,
        }
    }

    /// The 4-bit hardware code of the color.
    pub fn value(self) -> (r: u8)
        ensures
            r == self.code(),
            r < 16,
    {
        match self {
            Color::Black => 0,
            Color::Blue => 1,
            Color::Green => 2,
            Color::Cyan => 3,
            Color::Red => 4,
            Color::Magenta => 5,
            Color::Brown => 6,
            Color::LightGray => 7,
            Color::DarkGray => 8,
            Color::LightBlue => 9,
            Color::LightGreen => 10,
            Color::LightCyan => 11,
            Color::LightRed => 12,
            Color::Pink => 13,
            Color::Yellow => 14,
            Color::White => 15,
        }
    }

    /// The color whose hardware code is `n`.
    pub fn from_code(n: u8) -> (r: Color)
        requires
            n < 16,
        ensures
            r == color_of(n),
            r.code() == n,
    {
        if n == 0 { Color::Black }
        else if n == 1 { Color::Blue }
        else if n == 2 { Color::Green }
        else if n == 3 { Color::Cyan }
        else if n == 4 { Color::Red }
        else if n == 5 { Color::Magenta }
        else if n == 6 { Color::Brown }
        else if n == 7 { Color::LightGray }
        else if n == 8 { Color::DarkGray }
        else if n == 9 { Color::LightBlue }
        else if n == 10 { Color::LightGreen }
        else if n == 11 { Color::LightCyan }
        else if n == 12 { Color::LightRed }
        else if n == 13 { Color::Pink }
        else if n == 14 { Color::Yellow }
        else { Color::White }
    }
}

/// Decoding a color's hardware code gives the color back.
pub proof fn lemma_color_of_code(c: Color)
    ensures
        color_of(c.code()) == c,
        c.code() < 16,
{
}

/// A foreground and a background color packed into one byte: the background
/// code in the high nibble, the foreground code in the low nibble.
#[derive(Clone, Copy, Debug, PartialEq, Eq, Structural)]
pub struct ColorCode(u8);

impl ColorCode {
    /// The packed byte.
    pub closed spec fn byte(self) -> u8 {
        self.0
    }

    /// The packed byte of a foreground and a background color.
    pub open spec fn packed(foreground: Color, background: Color) -> u8 {
        (background.code() * 16 + foreground.code()) as u8
    }

    pub fn new(foreground: Color, background: Color) -> (r: Self)
        ensures
            r.byte() == Self::packed(foreground, background),
    {
        let f = foreground.value();
        let b = background.value();
        assert((b << 4u8) | f == b * 16 + f) by (bit_vector)
            requires
                b < 16,
                f < 16,
        ;
        ColorCode((b << 4u8) | f)
    }

    /// The packed byte, as it is stored in a cell.
    pub fn as_byte(self) -> (r: u8)
        ensures
            r == self.byte(),
    {
        self.0
    }

    /// The color of the low nibble.
    pub fn foreground(self) -> (r: Color)
        ensures
            r == color_of(self.byte() % 16),
    {
        Color::from_code(self.0 % 16)
    }

    /// The color of the high nibble.
    pub fn background(self) -> (r: Color)
        ensures
            r == color_of(self.byte() / 16),
    {
        Color::from_code(self.0 / 16)
    }
}

/// Packing two colors and decoding the two nibbles gives back the
/// foreground from the low nibble and the background from the high one.
pub proof fn lemma_color_round_trip(foreground: Color, background: Color)
    ensures
        color_of(ColorCode::packed(foreground, background) % 16) == foreground,
        color_of(ColorCode::packed(foreground, background) / 16) == background,
{
    lemma_color_of_code(foreground);
    lemma_color_of_code(background);
}

} // verus!
