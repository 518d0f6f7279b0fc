//! Brightness of a pixel and its mapping to a density index.

use vstd::prelude::*;
use crate::palette::RgbTriple;

verus! {

/// How an RGB triple is reduced to one brightness value.
#[derive(Clone, Copy, Debug, PartialEq, Eq, Structural)]
pub enum BrightnessMethod {
    Average,
    MinMax,
    Luminosity,
}

/// Largest brightness value.
pub const MAX_BRIGHTNESS: usize = 255;

/// Largest density index.
pub const MAX_DENSITY: usize = 63;

/// The method that a name selects: `"min_max"`, `"luminosity"`, and
/// `Average` for every other name.
pub open spec fn method_of_name(name: Seq<char>) -> BrightnessMethod {
    if name == "min_max"@ {
        BrightnessMethod::MinMax
    } else if name == "luminosity"@ {
        BrightnessMethod::Luminosity
    } else {
        BrightnessMethod::Average
    }
}

/// The smallest of three channels.
pub open spec fn min3(a: int, b: int, c: int) -> int {
    if a <= b && a <= c {
        a
    } else if b <= c {
        b
    } else {
        c
    }
}

/// The largest of three channels.
pub open spec fn max3(a: int, b: int, c: int) -> int {
    if a >= b && a >= c {
        a
    } else if b >= c {
        b
    } else {
        c
    }
}

/// Brightness of a colour under a method, truncated toward zero.
///
/// The luminosity weights are 0.21, 0.72 and 0.07, written here in
/// hundredths so that the weighted sum stays an integer.
pub open spec fn brightness_of(color: RgbTriple, method: BrightnessMethod) -> int {
    match method {
        BrightnessMethod::Average => (color.r + color.g + color.b) / 3,
        BrightnessMethod::MinMax => (min3(color.r as int, color.g as int, color.b as int) + max3(
            color.r as int,
            color.g as int,
            color.b as int,
        )) / 2,
        BrightnessMethod::Luminosity => (21 * color.r + 72 * color.g + 7 * color.b) / 100,
    }
}

/// Density index of a brightness: the brightness, mirrored around the
/// middle of the range when inverting, scaled from 0..=255 to 0..=63.
pub open spec fn density_index(value: int, invert: bool) -> int {
    let level = if invert {
        MAX_BRIGHTNESS - value
    } else {
        value
    };
    (level * MAX_DENSITY) / (MAX_BRIGHTNESS as int)
}

pub fn get_brightness_method(method: &str) -> (chosen: BrightnessMethod)
    ensures
        chosen == method_of_name(method@),
{
    let name: String = method.to_owned();
    if name == "min_max".to_owned() {
        BrightnessMethod::MinMax
    } else if name == "luminosity".to_owned() {
        BrightnessMethod::Luminosity
    } else {
        BrightnessMethod::Average
    }
}

pub fn brightness_map(color: &RgbTriple, method: &BrightnessMethod) -> (level: u8)
    ensures
        level == brightness_of(*color, *method),
{
    let r: u32 = color.r as u32;
    let g: u32 = color.g as u32;
    let b: u32 = color.b as u32;
    match method {
        BrightnessMethod::Average => ((r + g + b) / 3) as u8,
        BrightnessMethod::MinMax => {
            let mut low: u32 = r;
            let mut high: u32 = r;
            if g < low {
                low = g;
            }
            if b < low {
                low = b;
            }
            if g > high {
                high = g;
            }
            if b > high {
                high = b;
            }
            ((low + high) / 2) as u8
        },
        BrightnessMethod::Luminosity => ((21 * r + 72 * g + 7 * b) / 100) as u8,
    }
}

/// Maps a brightness in 0..=255 to a palette index in 0..=63.
pub fn linear_map(value: usize, invert: bool) -> (index: usize)
    requires
        value <= MAX_BRIGHTNESS,
    ensures
        index == density_index(value as int, invert),
        index <= MAX_DENSITY,
{
    let value: usize = if invert {
        MAX_BRIGHTNESS - value
    } else {
        value
    };
    (value * MAX_DENSITY) / MAX_BRIGHTNESS
}

/// Under `Average` the brightness is the mean of the three channels,
/// rounded down, and fits in eight bits.
pub proof fn lemma_average_is_floor_of_mean(color: RgbTriple)
    ensures
        3 * brightness_of(color, BrightnessMethod::Average) <= color.r + color.g + color.b,
        color.r + color.g + color.b < 3 * (brightness_of(color, BrightnessMethod::Average) + 1),
        0 <= brightness_of(color, BrightnessMethod::Average) <= MAX_BRIGHTNESS,
{
}

/// Under `Luminosity` the brightness is 0.21 r + 0.72 g + 0.07 b, rounded
/// down: it is the one integer `v` with
/// `100 v <= 21 r + 72 g + 7 b < 100 (v + 1)`, and it fits in eight bits.
pub proof fn lemma_luminosity_is_floor_of_weighted_sum(color: RgbTriple)
    ensures
        100 * brightness_of(color, BrightnessMethod::Luminosity) <= 21 * color.r + 72 * color.g + 7
            * color.b,
        21 * color.r + 72 * color.g + 7 * color.b < 100 * (brightness_of(
            color,
            BrightnessMethod::Luminosity,
        ) + 1),
        0 <= brightness_of(color, BrightnessMethod::Luminosity) <= MAX_BRIGHTNESS,
{
}

/// Under `MinMax` the brightness is half the sum of the smallest and the
/// largest channel, rounded down, and lies between those two channels.
pub proof fn lemma_min_max_lies_between_extremes(color: RgbTriple)
    ensures
        ({
            let low = min3(color.r as int, color.g as int, color.b as int);
            let high = max3(color.r as int, color.g as int, color.b as int);
            let level = brightness_of(color, BrightnessMethod::MinMax);
            &&& 2 * level <= low + high < 2 * (level + 1)
            &&& low <= level <= high
            &&& 0 <= level <= MAX_BRIGHTNESS
        }),
{
}

/// The darkest brightness maps to the first palette index and the
/// brightest to the last one.
pub proof fn lemma_density_endpoints()
    ensures
        density_index(0, false) == 0,
        density_index(MAX_BRIGHTNESS as int, false) == MAX_DENSITY,
{
}

/// Inverting a brightness gives the index of the mirrored brightness.
pub proof fn lemma_invert_mirrors_brightness(value: int)
    ensures
        density_index(value, true) == density_index(MAX_BRIGHTNESS - value, false),
{
}

/// Every brightness in range maps into the palette, inverted or not.
pub proof fn lemma_density_index_in_palette(value: int, invert: bool)
    requires
        0 <= value <= MAX_BRIGHTNESS,
    ensures
        0 <= density_index(value, invert) <= MAX_DENSITY,
{
}

/// A brighter value never maps to a lower index.
pub proof fn lemma_density_index_monotone(darker: int, brighter: int)
    requires
        darker <= brighter,
    ensures
        density_index(darker, false) <= density_index(brighter, false),
        density_index(darker, true) >= density_index(brighter, true),
{
}

} // verus!
