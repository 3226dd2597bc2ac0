//! Colors attached to inventories, and their persisted integer encoding.
//!
//! A color is either one of the sixteen terminal palette entries (plus
//! `Reset`), a 256-palette index, or a 24-bit RGB triple.  The persisted
//! form packs the variant tag into the top byte of a non-negative `i32`
//! and the payload into the low bytes; decoding accepts any stored
//! integer and falls back to `Reset` for codes that no variant produces.

use vstd::prelude::*;

verus! {

/// Variant tag stored in the top byte: a palette color.
pub const NORMAL: i32 = 0;

/// Variant tag stored in the top byte: a 256-palette index.
pub const INDEX: i32 = 1;

/// Variant tag stored in the top byte: an RGB triple.
pub const RGB: i32 = 2;

#[derive(Clone, Copy, PartialEq, Eq, Structural, Debug)]
pub enum NamedColor {
    Reset,
    Black,
    Red,
    Green,
    Yellow,
    Blue,
    Magenta,
    Cyan,
    Gray,
    DarkGray,
    LightRed,
    LightGreen,
    LightYellow,
    LightBlue,
    LightMagenta,
    LightCyan,
    White,
}

/// A display color as the rest of the core sees it.
#[derive(Clone, Copy, PartialEq, Eq, Structural, Debug)]
pub enum Color {
    Named(NamedColor),
    Indexed(u8),
    Rgb(u8, u8, u8),
}

/// The persisted integer form of a [`Color`].
#[derive(Default, Clone, Copy, PartialEq, Eq, Structural, Debug)]
pub struct DbColor(pub i32);

pub open spec fn named_code(n: NamedColor) -> int {
    match n {
        NamedColor::Reset => 0,
        NamedColor::Black => 1,
        NamedColor::Red => 2,
        NamedColor::Green => 3,
        NamedColor::Yellow => 4,
        NamedColor::Blue => 5,
        NamedColor::Magenta => 6,
        NamedColor::Cyan => 7,
        NamedColor::Gray => 8,
        NamedColor::DarkGray => 9,
        NamedColor::LightRed => 10,
        NamedColor::LightGreen => 11,
        NamedColor::LightYellow => 12,
        NamedColor::LightBlue => 13,
        NamedColor::LightMagenta => 14,
        NamedColor::LightCyan => 15,
        NamedColor::White => 16,
    }
}

pub open spec fn named_of_code(i: int) -> NamedColor {
    if i == 1 {
        NamedColor::Black
    } else if i == 2 {
        NamedColor::Red
    } else if i == 3 {
        NamedColor::Green
    } else if i == 4 {
        NamedColor::Yellow
    } else if i == 5 {
        NamedColor::Blue
    } else if i == 6 {
        NamedColor::Magenta
    } else if i == 7 {
        NamedColor::Cyan
    } else if i == 8 {
        NamedColor::Gray
    } else if i == 9 {
        NamedColor::DarkGray
    } else if i == 10 {
        NamedColor::LightRed
    } else if i == 11 {
        NamedColor::LightGreen
    } else if i == 12 {
        NamedColor::LightYellow
    } else if i == 13 {
        NamedColor::LightBlue
    } else if i == 14 {
        NamedColor::LightMagenta
    } else if i == 15 {
        NamedColor::LightCyan
    } else if i == 16 {
        NamedColor::White
    } else {
        NamedColor::Reset
    }
}

/// The packed integer for a color: the variant tag in the top byte,
/// the payload below it.
pub open spec fn encode_spec(c: Color) -> int {
    match c {
        Color::Named(n) => named_code(n),
        Color::Indexed(i) => (INDEX as int) * 0x100_0000 + i,
        Color::Rgb(r, g, b) => (RGB as int) * 0x100_0000 + r * 0x1_0000 + g * 0x100 + b,
    }
}

/// The color a stored integer stands for.  Codes that no variant
/// produces decode to `Reset`, as does anything negative.
pub open spec fn decode_spec(i: int) -> Color {
    if i < 0 {
        Color::Named(NamedColor::Reset)
    } else if i / 0x100_0000 == NORMAL as int {
        if i <= 16 {
            Color::Named(named_of_code(i))
        } else {
            Color::Named(NamedColor::Reset)
        }
    } else if i / 0x100_0000 == INDEX as int {
        Color::Indexed((i % 0x100) as u8)
    } else if i / 0x100_0000 == RGB as int {
        Color::Rgb(((i / 0x1_0000) % 0x100) as u8, ((i / 0x100) % 0x100) as u8, (i % 0x100) as u8)
    } else {
        Color::Named(NamedColor::Reset)
    }
}

impl NamedColor {
    pub fn code(self) -> (r: i32)
        ensures
            r == named_code(self),
    {
        match self {
            NamedColor::Reset => 0,
            NamedColor::Black => 1,
            NamedColor::Red => 2,
            NamedColor::Green => 3,
            NamedColor::Yellow => 4,
            NamedColor::Blue => 5,
            NamedColor::Magenta => 6,
            NamedColor::Cyan => 7,
            NamedColor::Gray => 8,
            NamedColor::DarkGray => 9,
            NamedColor::LightRed => 10,
            NamedColor::LightGreen => 11,
            NamedColor::LightYellow => 12,
            NamedColor::LightBlue => 13,
            NamedColor::LightMagenta => 14,
            NamedColor::LightCyan => 15,
            NamedColor::White => 16,
        }
    }

    pub fn of_code(i: i32) -> (r: NamedColor)
        ensures
            r == named_of_code(i as int),
    {
        if i == 1 {
            NamedColor::Black
        } else if i == 2 {
            NamedColor::Red
        } else if i == 3 {
            NamedColor::Green
        } else if i == 4 {
            NamedColor::Yellow
        } else if i == 5 {
            NamedColor::Blue
        } else if i == 6 {
            NamedColor::Magenta
        } else if i == 7 {
            NamedColor::Cyan
        } else if i == 8 {
            NamedColor::Gray
        } else if i == 9 {
            NamedColor::DarkGray
        } else if i == 10 {
            NamedColor::LightRed
        } else if i == 11 {
            NamedColor::LightGreen
        } else if i == 12 {
            NamedColor::LightYellow
        } else if i == 13 {
            NamedColor::LightBlue
        } else if i == 14 {
            NamedColor::LightMagenta
        } else if i == 15 {
            NamedColor::LightCyan
        } else if i == 16 {
            NamedColor::White
        } else {
            NamedColor::Reset
        }
    }
}

impl DbColor {
    /// The raw persisted integer.
    pub fn code(self) -> (r: i32)
        ensures
            r == self.0,
    {
        self.0
    }

    pub fn from_code(i: i32) -> (r: DbColor)
        ensures
            r.0 == i,
    {
        DbColor(i)
    }

    /// Pack a color into its persisted integer form.
    pub fn encode(c: Color) -> (r: DbColor)
        ensures
            r.0 == encode_spec(c),
    {
        match c {
            Color::Named(n) => DbColor(n.code()),
            Color::Indexed(i) => DbColor(INDEX * 0x100_0000 + i as i32),
            Color::Rgb(r, g, b) => DbColor(
                RGB * 0x100_0000 + (r as i32) * 0x1_0000 + (g as i32) * 0x100 + b as i32,
            ),
        }
    }

    /// Unpack a persisted integer; unknown codes give `Reset`.
    pub fn decode(self) -> (r: Color)
        ensures
            r == decode_spec(self.0 as int),
    {
        let i = self.0;
        if i < 0 {
            Color::Named(NamedColor::Reset)
        } else {
            let tag = i / 0x100_0000;
            if tag == NORMAL {
                if i <= 16 {
                    Color::Named(NamedColor::of_code(i))
                } else {
                    Color::Named(NamedColor::Reset)
                }
            } else if tag == INDEX {
                Color::Indexed((i % 0x100) as u8)
            } else if tag == RGB {
                Color::Rgb(
                    ((i / 0x1_0000) % 0x100) as u8,
                    ((i / 0x100) % 0x100) as u8,
                    (i % 0x100) as u8,
                )
            } else {
                Color::Named(NamedColor::Reset)
            }
        }
    }
}

/// Every color survives the trip through its persisted integer form:
/// decoding what `encode` packed gives the color back unchanged.
pub proof fn lemma_color_round_trip(c: Color)
    ensures
        decode_spec(encode_spec(c)) == c,
{
    match c {
        Color::Named(n) => {
        },
        Color::Indexed(i) => {
            assert(decode_spec(encode_spec(c)) == c) by (nonlinear_arith)
                requires
                    c == Color::Indexed(i),
            ;
        },
        Color::Rgb(r, g, b) => {
            assert(decode_spec(encode_spec(c)) == c) by (nonlinear_arith)
                requires
                    c == Color::Rgb(r, g, b),
            ;
        },
    }
}

} // verus!
