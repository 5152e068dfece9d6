//! The density scale: ten characters from the lightest mark to the heaviest,
//! and the mapping from an average intensity to one of them.

use vstd::prelude::*;

verus! {

/// The number of characters in the density scale.
pub const SCALE_LEN: u8 = 10;

/// The density scale: ten characters, from the lightest mark to the heaviest.
pub open spec fn density_scale() -> Seq<char> {
    seq![' ', '.', ':', '-', '=', '+', '*', '#', '%', '@']
}

/// The character at position `index` of the density scale.
pub open spec fn scale_char(index: int) -> char
    recommends
        0 <= index < SCALE_LEN,
{
    density_scale()[index]
}

/// Whether `c` is one of the ten characters of the density scale.
pub open spec fn is_scale_char(c: char) -> bool {
    density_scale().contains(c)
}

/// The bucket of an average intensity: `mean / 256 * 10`, rounded down. The
/// multiplication comes first so that the integer division loses nothing.
pub open spec fn density_index(mean: int) -> int {
    mean * 10 / 256
}

/// The position in the density scale at which an average intensity is drawn.
/// On a dark background (`dark`) a bright block gets a heavy mark; on a light
/// background the scale is walked from the other end.
pub open spec fn scale_position(mean: int, dark: bool) -> int {
    if dark {
        density_index(mean)
    } else {
        SCALE_LEN - 1 - density_index(mean)
    }
}

/// The character drawn for a block of average intensity `mean`.
pub open spec fn density_char(mean: int, dark: bool) -> char {
    scale_char(scale_position(mean, dark))
}

/// The bucket of an 8-bit intensity always lies in the scale.
pub proof fn lemma_density_index_range(mean: int)
    requires
        0 <= mean <= 255,
    ensures
        0 <= density_index(mean) <= 9,
        0 <= scale_position(mean, true) <= 9,
        0 <= scale_position(mean, false) <= 9,
{
}

/// Looks up the character at position `index` of the density scale.
pub fn scale_lookup(index: u8) -> (c: char)
    requires
        index < SCALE_LEN,
    ensures
        c == scale_char(index as int),
{
    if index == 0 {
        ' '
    } else if index == 1 {
        '.'
    } else if index == 2 {
        ':'
    } else if index == 3 {
        '-'
    } else if index == 4 {
        '='
    } else if index == 5 {
        '+'
    } else if index == 6 {
        '*'
    } else if index == 7 {
        '#'
    } else if index == 8 {
        '%'
    } else {
        '@'
    }
}

/// Computes the bucket, from 0 to 9, of an average intensity.
pub fn bucket(mean: u8) -> (index: u8)
    ensures
        index == density_index(mean as int),
        index < SCALE_LEN,
{
    let scaled: u16 = mean as u16 * 10;
    (scaled / 256) as u8
}

/// The character for a block of average intensity `mean`, for either
/// background.
pub fn shade(mean: u8, dark: bool) -> (c: char)
    ensures
        c == density_char(mean as int, dark),
        is_scale_char(c),
{
    let index: u8 = bucket(mean);
    let position: u8 = if dark {
        index
    } else {
        SCALE_LEN - 1 - index
    };
    scale_lookup(position)
}

/// The character for a block of average intensity `i` on a light background:
/// the brighter the block, the lighter the mark.
pub fn get_char(i: u8) -> (c: char)
    ensures
        c == density_char(i as int, false),
        is_scale_char(c),
{
    shade(i, false)
}

} // verus!
