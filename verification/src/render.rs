//! Terminal color depth and the quantization of colors into the xterm-256
//! palette.
use vstd::prelude::*;

verus! {

/// How much color the terminal is believed to support. Colors degrade
/// truecolor, then the 256-color palette, then the sixteen named colors.
#[derive(Clone, Copy, Debug, PartialEq, Eq, Structural)]
pub enum ColorDepth {
    Truecolor,
    Xterm256,
    Ansi16,
}

/// The larger of two channels.
pub open spec fn max8(a: u8, b: u8) -> u8 {
    if a >= b { a } else { b }
}

/// The smaller of two channels.
pub open spec fn min8(a: u8, b: u8) -> u8 {
    if a <= b { a } else { b }
}

/// A channel on the color cube's six levels, rounded to nearest.
pub open spec fn cube_level(channel: u8) -> nat {
    ((channel as nat) * 5 + 127) / 255
}

/// The palette index of a color: a near-gray (channels within eight of each
/// other) takes the 24-step gray ramp at 232..=255 by its average; any
/// other color the 6x6x6 cube at 16..=231.
pub open spec fn palette_index(red: u8, green: u8, blue: u8) -> nat {
    let spread = max8(max8(red, green), blue) - min8(min8(red, green), blue);
    if spread < 8 {
        232 + ((red as nat + green as nat + blue as nat) / 3) * 24 / 256
    } else {
        16 + 36 * cube_level(red) + 6 * cube_level(green) + cube_level(blue)
    }
}

fn quantize(channel: u8) -> (q: u8)
    ensures
        q == cube_level(channel),
        q <= 5,
{
    ((channel as u16 * 5 + 127) / 255) as u8
}

/// Quantizes a color into the xterm-256 palette.
pub fn xterm256_index(red: u8, green: u8, blue: u8) -> (index: u8)
    ensures
        index == palette_index(red, green, blue),
        index >= 16,
{
    let high = if red >= green { red } else { green };
    let high = if high >= blue { high } else { blue };
    let low = if red <= green { red } else { green };
    let low = if low <= blue { low } else { blue };
    let spread = high - low;
    if spread < 8 {
        let gray: u16 = (red as u16 + green as u16 + blue as u16) / 3;
        return 232 + (gray * 24 / 256) as u8;
    }
    16 + 36 * quantize(red) + 6 * quantize(green) + quantize(blue)
}

} // verus!
