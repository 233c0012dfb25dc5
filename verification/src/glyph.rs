//! Random glyph sources: the three alphabets the rain effect draws from.

use vstd::prelude::*;
use crate::rng::{char_from_code, rand_between, rand_u32};

verus! {

/// First code point of the Half-Width Katakana run the widgets use.
pub const KATAKANA_FIRST: u32 = 0xFF66;

/// Last code point of the Half-Width Katakana run the widgets use.
pub const KATAKANA_LAST: u32 = 0xFF9D;

/// `c` is one of the 56 Half-Width Katakana code points.
pub open spec fn is_katakana(c: char) -> bool {
    KATAKANA_FIRST <= c as u32 <= KATAKANA_LAST
}

/// `c` is a decimal digit.
pub open spec fn is_digit_glyph(c: char) -> bool {
    '0' as u32 <= c as u32 <= '9' as u32
}

/// `c` is an uppercase Latin letter.
pub open spec fn is_upper_glyph(c: char) -> bool {
    'A' as u32 <= c as u32 <= 'Z' as u32
}

/// `c` belongs to the weighted rain alphabet: uppercase Latin, decimal
/// digit, or Half-Width Katakana.
pub open spec fn is_glyph(c: char) -> bool {
    is_upper_glyph(c) || is_digit_glyph(c) || is_katakana(c)
}

/// A uniformly random Half-Width Katakana character.
pub(crate) fn random_katakana(rng: &mut rand::rngs::ThreadRng) -> (c: char)
    ensures
        is_katakana(c),
{
    let off = rand_between(rng, 0, (KATAKANA_LAST - KATAKANA_FIRST) as usize);
    char_from_code(KATAKANA_FIRST + off as u32)
}

/// A uniformly random decimal digit character.
pub(crate) fn random_digit(rng: &mut rand::rngs::ThreadRng) -> (c: char)
    ensures
        is_digit_glyph(c),
{
    let off = rand_between(rng, 0, 9);
    char_from_code('0' as u32 + off as u32)
}

/// A uniformly random uppercase Latin letter.
pub(crate) fn random_upper(rng: &mut rand::rngs::ThreadRng) -> (c: char)
    ensures
        is_upper_glyph(c),
{
    let off = rand_between(rng, 0, 25);
    char_from_code('A' as u32 + off as u32)
}

/// A random character of the weighted rain alphabet: a letter or a digit
/// each with chance one in five, otherwise a Half-Width Katakana.
pub(crate) fn random_glyph(rng: &mut rand::rngs::ThreadRng) -> (c: char)
    ensures
        is_glyph(c),
{
    match rand_u32(rng) % 5 {
        0 => random_upper(rng),
        1 => random_digit(rng),
        _ => random_katakana(rng),
    }
}

} // verus!
