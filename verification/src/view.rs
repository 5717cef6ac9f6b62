//! The palette: the colors that the color indices of the grid stand for.

use vstd::prelude::*;

verus! {

/// The number of colors in the palette: a background and a foreground for
/// each of the sixteen values of a color nibble.
pub const PALETTE_LEN: usize = 32;

/// A named color. Each name comes twice: plain for the background, and with
/// an underscore for the foreground drawn on it.
#[allow(non_camel_case_types)]
#[derive(Clone, Copy, Debug, PartialEq, Eq)]
pub enum NColor {
    /// black, as a background
    Black,
    /// the foreground that goes with black
    Black_,
    /// gray, as a background
    Gray,
    /// the foreground that goes with gray
    Gray_,
    /// red, as a background
    Red,
    /// the foreground that goes with red
    Red_,
    /// green, as a background
    Green,
    /// the foreground that goes with green
    Green_,
    /// blue, as a background
    Blue,
    /// the foreground that goes with blue
    Blue_,
    /// cyan, as a background
    Cyan,
    /// the foreground that goes with cyan
    Cyan_,
    /// magenta, as a background
    Magenta,
    /// the foreground that goes with magenta
    Magenta_,
    /// yellow, as a background
    Yellow,
    /// the foreground that goes with yellow
    Yellow_,
    /// orange, as a background
    Orange,
    /// the foreground that goes with orange
    Orange_,
    /// violet, as a background
    Violet,
    /// the foreground that goes with violet
    Violet_,
    /// white, as a background
    White,
    /// the foreground that goes with white
    White_,
    /// light red, as a background
    LightRed,
    /// the foreground that goes with light red
    LightRed_,
    /// light green, as a background
    LightGreen,
    /// the foreground that goes with light green
    LightGreen_,
    /// light blue, as a background
    LightBlue,
    /// the foreground that goes with light blue
    LightBlue_,
    /// light black, as a background
    LightBlack,
    /// the foreground that goes with light black
    LightBlack_,
    /// dark gray, as a background
    DarkGray,
    /// the foreground that goes with dark gray
    DarkGray_,
}

/// The color as a number `0xAARRGGBB`.
pub open spec fn argb(c: NColor) -> u32 {
    match c {
        NColor::Black => 0x00000000u32,
        NColor::Black_ => 0xc0ffffffu32,
        NColor::Gray => 0x00a0a0a0u32,
        NColor::Gray_ => 0xc0404040u32,
        NColor::Red => 0x00f04040u32,
        NColor::Red_ => 0xc040f0f0u32,
        NColor::Green => 0x0040f040u32,
        NColor::Green_ => 0xc0f040f0u32,
        NColor::Blue => 0x004040f0u32,
        NColor::Blue_ => 0xc0f0f040u32,
        NColor::Cyan => 0x0040f0f0u32,
        NColor::Cyan_ => 0xc0f04040u32,
        NColor::Magenta => 0x00f040f0u32,
        NColor::Magenta_ => 0xc040f040u32,
        NColor::Yellow => 0x00f0f040u32,
        NColor::Yellow_ => 0xc04040f0u32,
        NColor::Orange => 0x00f0c040u32,
        NColor::Orange_ => 0xc040c0f0u32,
        NColor::Violet => 0x00c040f0u32,
        NColor::Violet_ => 0xc0c0f040u32,
        NColor::White => 0x00f0f0f0u32,
        NColor::White_ => 0xc0202020u32,
        NColor::LightRed => 0x00f02060u32,
        NColor::LightRed_ => 0xc060f020u32,
        NColor::LightGreen => 0x0060f020u32,
        NColor::LightGreen_ => 0xc02060f0u32,
        NColor::LightBlue => 0x002060f0u32,
        NColor::LightBlue_ => 0xc0f02060u32,
        NColor::LightBlack => 0x00202020u32,
        NColor::LightBlack_ => 0xc0f0f0f0u32,
        NColor::DarkGray => 0x00606060u32,
        NColor::DarkGray_ => 0xc0c0c0c0u32,
    }
}

/// The red, green and blue bytes of a number `0xAARRGGBB`.
pub open spec fn rgb(v: u32) -> (u8, u8, u8) {
    (((v >> 16) & 0xff) as u8, ((v >> 8) & 0xff) as u8, (v & 0xff) as u8)
}

/// The palette in the order of its indices.
pub open spec fn palette_seq() -> Seq<NColor> {
    seq![
        NColor::Black,
        NColor::Black_,
        NColor::Gray,
        NColor::Gray_,
        NColor::Red,
        NColor::Red_,
        NColor::Green,
        NColor::Green_,
        NColor::Blue,
        NColor::Blue_,
        NColor::Cyan,
        NColor::Cyan_,
        NColor::Magenta,
        NColor::Magenta_,
        NColor::Yellow,
        NColor::Yellow_,
        NColor::Orange,
        NColor::Orange_,
        NColor::Violet,
        NColor::Violet_,
        NColor::White,
        NColor::White_,
        NColor::LightRed,
        NColor::LightRed_,
        NColor::LightGreen,
        NColor::LightGreen_,
        NColor::LightBlue,
        NColor::LightBlue_,
        NColor::LightBlack,
        NColor::LightBlack_,
        NColor::DarkGray,
        NColor::DarkGray_,
    ]
}

impl NColor {
    /// The color as a number `0xAARRGGBB`.
    pub fn argb(&self) -> (v: u32)
        ensures
            v == argb(*self),
    {
        match self {
            NColor::Black => 0x00000000,
            NColor::Black_ => 0xc0ffffff,
            NColor::Gray => 0x00a0a0a0,
            NColor::Gray_ => 0xc0404040,
            NColor::Red => 0x00f04040,
            NColor::Red_ => 0xc040f0f0,
            NColor::Green => 0x0040f040,
            NColor::Green_ => 0xc0f040f0,
            NColor::Blue => 0x004040f0,
            NColor::Blue_ => 0xc0f0f040,
            NColor::Cyan => 0x0040f0f0,
            NColor::Cyan_ => 0xc0f04040,
            NColor::Magenta => 0x00f040f0,
            NColor::Magenta_ => 0xc040f040,
            NColor::Yellow => 0x00f0f040,
            NColor::Yellow_ => 0xc04040f0,
            NColor::Orange => 0x00f0c040,
            NColor::Orange_ => 0xc040c0f0,
            NColor::Violet => 0x00c040f0,
            NColor::Violet_ => 0xc0c0f040,
            NColor::White => 0x00f0f0f0,
            NColor::White_ => 0xc0202020,
            NColor::LightRed => 0x00f02060,
            NColor::LightRed_ => 0xc060f020,
            NColor::LightGreen => 0x0060f020,
            NColor::LightGreen_ => 0xc02060f0,
            NColor::LightBlue => 0x002060f0,
            NColor::LightBlue_ => 0xc0f02060,
            NColor::LightBlack => 0x00202020,
            NColor::LightBlack_ => 0xc0f0f0f0,
            NColor::DarkGray => 0x00606060,
            NColor::DarkGray_ => 0xc0c0c0c0,
        }
    }

    /// The red, green and blue bytes of the color.
    pub fn nop(&self) -> (c: (u8, u8, u8))
        ensures
            c == rgb(argb(*self)),
    {
        let v: u32 = self.argb();
        assert((v >> 16) & 0xff < 256 && (v >> 8) & 0xff < 256 && v & 0xff < 256) by (bit_vector);
        (((v >> 16) & 0xff) as u8, ((v >> 8) & 0xff) as u8, (v & 0xff) as u8)
    }

    /// The palette in the order of its indices: the color with index `2 * n`
    /// is the background for color nibble `n`, the one after it the
    /// foreground.
    pub fn palette() -> (v: Vec<NColor>)
        ensures
            v@ == palette_seq(),
            v@.len() == PALETTE_LEN,
    {
        let mut v: Vec<NColor> = Vec::new();
        v.push(NColor::Black);
        v.push(NColor::Black_);
        v.push(NColor::Gray);
        v.push(NColor::Gray_);
        v.push(NColor::Red);
        v.push(NColor::Red_);
        v.push(NColor::Green);
        v.push(NColor::Green_);
        v.push(NColor::Blue);
        v.push(NColor::Blue_);
        v.push(NColor::Cyan);
        v.push(NColor::Cyan_);
        v.push(NColor::Magenta);
        v.push(NColor::Magenta_);
        v.push(NColor::Yellow);
        v.push(NColor::Yellow_);
        v.push(NColor::Orange);
        v.push(NColor::Orange_);
        v.push(NColor::Violet);
        v.push(NColor::Violet_);
        v.push(NColor::White);
        v.push(NColor::White_);
        v.push(NColor::LightRed);
        v.push(NColor::LightRed_);
        v.push(NColor::LightGreen);
        v.push(NColor::LightGreen_);
        v.push(NColor::LightBlue);
        v.push(NColor::LightBlue_);
        v.push(NColor::LightBlack);
        v.push(NColor::LightBlack_);
        v.push(NColor::DarkGray);
        v.push(NColor::DarkGray_);
        assert(v@ =~= palette_seq());
        v
    }
}

} // verus!
