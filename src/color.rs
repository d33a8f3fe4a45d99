//! The bar's palette.
use vstd::prelude::*;

verus! {

/// A color as red, green, blue and alpha channels, each in thousandths:
/// 0 is none of the channel and `CHANNEL_FULL` is all of it.
#[derive(Clone, Copy, Debug, PartialEq, Eq, Structural)]
pub struct Rgba {
    pub r: u16,
    pub g: u16,
    pub b: u16,
    pub a: u16,
}

/// The value of a channel at full intensity.
pub const CHANNEL_FULL: u16 = 1000;

impl Rgba {
    /// Every channel lies within `[0, CHANNEL_FULL]`.
    pub open spec fn wf(self) -> bool {
        self.r <= CHANNEL_FULL && self.g <= CHANNEL_FULL && self.b <= CHANNEL_FULL
            && self.a <= CHANNEL_FULL
    }
}

/// The dark text color, drawn on the accent backdrop.
pub open spec fn dark_text() -> Rgba {
    Rgba { r: 50, g: 50, b: 50, a: 1000 }
}

/// The light text color, drawn on every other backdrop.
pub open spec fn light_text() -> Rgba {
    Rgba { r: 972, g: 972, b: 949, a: 1000 }
}

/// The named colors of the bar.
pub struct ColorScheme;

impl ColorScheme {
    pub fn black() -> (c: Rgba)
        ensures
            c == dark_text(),
            c.wf(),
    {
        Rgba { r: 50, g: 50, b: 50, a: 1000 }
    }

    pub fn background() -> (c: Rgba)
        ensures
            c == (Rgba { r: 156, g: 164, b: 211, a: 1000 }),
    {
        Rgba { r: 156, g: 164, b: 211, a: 1000 }
    }

    pub fn cyan() -> (c: Rgba)
        ensures
            c == (Rgba { r: 545, g: 913, b: 992, a: 1000 }),
    {
        Rgba { r: 545, g: 913, b: 992, a: 1000 }
    }

    pub fn foreground() -> (c: Rgba)
        ensures
            c == light_text(),
            c.wf(),
    {
        Rgba { r: 972, g: 972, b: 949, a: 1000 }
    }

    pub fn green() -> (c: Rgba)
        ensures
            c == (Rgba { r: 313, g: 980, b: 482, a: 1000 }),
    {
        Rgba { r: 313, g: 980, b: 482, a: 1000 }
    }

    pub fn orange() -> (c: Rgba)
        ensures
            c == (Rgba { r: 1000, g: 721, b: 423, a: 1000 }),
    {
        Rgba { r: 1000, g: 721, b: 423, a: 1000 }
    }

    pub fn pink() -> (c: Rgba)
        ensures
            c == (Rgba { r: 1000, g: 474, b: 776, a: 1000 }),
    {
        Rgba { r: 1000, g: 474, b: 776, a: 1000 }
    }

    pub fn purple() -> (c: Rgba)
        ensures
            c == (Rgba { r: 741, g: 576, b: 976, a: 1000 }),
    {
        Rgba { r: 741, g: 576, b: 976, a: 1000 }
    }

    pub fn red() -> (c: Rgba)
        ensures
            c == (Rgba { r: 1000, g: 333, b: 333, a: 1000 }),
    {
        Rgba { r: 1000, g: 333, b: 333, a: 1000 }
    }

    pub fn selection() -> (c: Rgba)
        ensures
            c == (Rgba { r: 384, g: 447, b: 643, a: 1000 }),
    {
        Rgba { r: 384, g: 447, b: 643, a: 1000 }
    }

    pub fn yellow() -> (c: Rgba)
        ensures
            c == (Rgba { r: 945, g: 980, b: 549, a: 1000 }),
    {
        Rgba { r: 945, g: 980, b: 549, a: 1000 }
    }
}

} // verus!
