//! The colours of the slices.

use vstd::prelude::*;

verus! {

/// The value of a channel at full intensity. A channel holds its intensity
/// in parts of this scale, which is fine enough to hold both a palette
/// colour and its darkened form exactly.
pub const COLOR_SCALE: u16 = 2805;

/// How many colours the palette cycles through.
pub const PALETTE_SIZE: usize = 6;

/// A colour, each channel between 0 and `COLOR_SCALE`.
#[derive(Clone, Copy, Debug, PartialEq, Eq, Structural)]
pub struct Color {
    pub red: u16,
    pub green: u16,
    pub blue: u16,
}

/// The palette, as eight-bit channels: red, orange, yellow, green, blue, purple.
pub open spec fn palette(slot: int) -> (int, int, int) {
    if slot == 0 {
        (0xe0, 0x1b, 0x24)
    } else if slot == 1 {
        (0xff, 0x78, 0x00)
    } else if slot == 2 {
        (0xf6, 0xd3, 0x2d)
    } else if slot == 3 {
        (0x33, 0xd1, 0x7a)
    } else if slot == 4 {
        (0x35, 0x84, 0xe4)
    } else {
        (0x91, 0x41, 0xac)
    }
}

/// The colour of the slice at `index` among the drawn ones. An eight-bit
/// channel `c` stands for the intensity `c / 255`; a highlighted slice has
/// each channel divided by 1.1. In parts of `COLOR_SCALE`, which is
/// 255 times 11, these are `11 c` and `10 c`.
pub open spec fn item_color(index: int, highlighted: bool) -> Color {
    let (r, g, b) = palette(index % 6);
    let k: int = if highlighted { 10 } else { 11 };
    Color { red: (r * k) as u16, green: (g * k) as u16, blue: (b * k) as u16 }
}

/// No channel of an item's colour exceeds the scale.
pub proof fn lemma_item_color_in_range(index: int, highlighted: bool)
    requires
        index >= 0,
    ensures
        item_color(index, highlighted).red <= COLOR_SCALE,
        item_color(index, highlighted).green <= COLOR_SCALE,
        item_color(index, highlighted).blue <= COLOR_SCALE,
{
}

} // verus!
