//! The integer parts of the overlay's falling-glyph effect.

use vstd::prelude::*;

verus! {

/// The glyphs of the falling rain, in order.
pub open spec fn glyphs() -> Seq<char> {
    seq!['0', '1', 'A', 'B', 'C', 'D', 'E', 'F', 'G', 'H', 'K', 'M', 'N', 'P', 'Q', 'R', 'S', 'T',
        'U', 'V', 'W', 'X', 'Y', 'Z', '#', '$', '%', '+', '*', '<', '>']
}

/// The glyph picked by a random seed.
pub fn glyph(seed: u64) -> (c: char)
    ensures
        c == glyphs()[((seed as usize) % 31) as int],
{
    let table: [char; 31] = ['0', '1', 'A', 'B', 'C', 'D', 'E', 'F', 'G', 'H', 'K', 'M', 'N', 'P',
        'Q', 'R', 'S', 'T', 'U', 'V', 'W', 'X', 'Y', 'Z', '#', '$', '%', '+', '*', '<', '>'];
    assert(table@ =~= glyphs());
    table[(seed as usize) % 31]
}

/// One xorshift64 step (shifts 13, 7, 17).
pub open spec fn xorshift_spec(x: u64) -> u64 {
    let a = x ^ (x << 13u64);
    let b = a ^ (a >> 7u64);
    b ^ (b << 17u64)
}

/// The next state of the effect's random number generator.
pub fn xorshift(x: u64) -> (r: u64)
    ensures
        r == xorshift_spec(x),
{
    let mut x = x;
    x = x ^ (x << 13);
    x = x ^ (x >> 7);
    x = x ^ (x << 17);
    x
}

/// The generator never reaches the stuck state 0 from a nonzero state.
pub proof fn lemma_xorshift_nonzero(x: u64)
    requires
        x != 0,
    ensures
        xorshift_spec(x) != 0,
{
    let a = x ^ (x << 13u64);
    let b = a ^ (a >> 7u64);
    assert(x != 0 ==> x ^ (x << 13u64) != 0) by (bit_vector);
    assert(a != 0 ==> a ^ (a >> 7u64) != 0) by (bit_vector);
    assert(b != 0 ==> b ^ (b << 17u64) != 0) by (bit_vector);
}


/// Number of glyph columns for a panel `width` pixels wide: one per 18
/// pixels (rounded toward zero), between 8 and 42.
pub open spec fn rain_columns_for(width: int) -> int {
    let share = if width >= 0 { width / 18 } else { -((-width) / 18) };
    if share < 8 { 8 } else if share > 42 { 42 } else { share }
}

/// How many glyph columns fall across the panel.
pub fn rain_column_count(width: i32) -> (r: usize)
    ensures
        r == rain_columns_for(width as int),
        8 <= r <= 42,
{
    if width < 144 {
        8
    } else {
        let share = width / 18;
        if share > 42 { 42 } else { share as usize }
    }
}

/// How many glyphs a column holds for a random seed: 8 to 19.
pub fn rain_column_length(seed: u64) -> (r: usize)
    ensures
        r == 8 + (seed as usize) % 12,
        8 <= r < 20,
{
    8 + (seed as usize) % 12
}

} // verus!
