//! Which weather animation plays behind the panel.

use vstd::prelude::*;

verus! {

/// The kind of sky drawn behind the panel.
#[derive(Clone, Copy, Debug, PartialEq, Eq, Structural)]
pub enum Sky {
    Sun,
    Clouds,
    Rain,
    Snow,
}

/// The animation for a WMO weather code: sun for clear skies by day (none by
/// night), clouds for cloud and fog, rain for drizzle, rain, showers and
/// thunderstorms, snow for snowfall; nothing for other or missing codes.
pub open spec fn sky_for(code: Option<i32>, is_day: bool) -> Option<Sky> {
    match code {
        None => None,
        Some(c) => if c == 0 || c == 1 {
            if is_day { Some(Sky::Sun) } else { None }
        } else if c == 2 || c == 3 || c == 45 || c == 48 {
            Some(Sky::Clouds)
        } else if c == 51 || c == 53 || c == 55 || c == 56 || c == 57 || c == 61 || c == 63 || c
            == 65 || c == 66 || c == 67 || c == 80 || c == 81 || c == 82 || c == 95 || c == 96 || c
            == 99 {
            Some(Sky::Rain)
        } else if c == 71 || c == 73 || c == 75 || c == 77 || c == 85 || c == 86 {
            Some(Sky::Snow)
        } else {
            None
        },
    }
}

impl Sky {
    /// The sky to animate for the current weather.
    pub fn from_code(code: Option<i32>, is_day: bool) -> (r: Option<Sky>)
        ensures
            r == sky_for(code, is_day),
    {
        let c = match code {
            Some(c) => c,
            None => return None,
        };
        match c {
            0 | 1 => if is_day {
                Some(Sky::Sun)
            } else {
                None
            },
            2 | 3 | 45 | 48 => Some(Sky::Clouds),
            51 | 53 | 55 | 56 | 57 | 61 | 63 | 65 | 66 | 67 | 80 | 81 | 82 | 95 | 96 | 99 => Some(
                Sky::Rain,
            ),
            71 | 73 | 75 | 77 | 85 | 86 => Some(Sky::Snow),
            _ => None,
        }
    }
}

/// The integer mixing step behind the animation's pseudo-random placement:
/// `seed + 1` scrambled by multiply-xorshift rounds, all wrapping.
pub open spec fn unit_bits_spec(seed: u64) -> u64 {
    let z0 = ((seed + 1) % 0x1_0000_0000_0000_0000) as u64;
    let z1 = ((z0 as int * 0x9E37_79B9_7F4A_7C15) % 0x1_0000_0000_0000_0000) as u64;
    let z2 = z1 ^ (z1 >> 32u64);
    let z3 = ((z2 as int * 0xBF58_476D_1CE4_E5B9) % 0x1_0000_0000_0000_0000) as u64;
    z3 ^ (z3 >> 29u64)
}

/// The scrambled bits that the animation scales into `[0, 1]`.
pub fn unit_bits(seed: u64) -> (r: u64)
    ensures
        r == unit_bits_spec(seed),
{
    let mut z = seed.wrapping_add(1).wrapping_mul(0x9E37_79B9_7F4A_7C15);
    z = z ^ (z >> 32);
    z = z.wrapping_mul(0xBF58_476D_1CE4_E5B9);
    z ^ (z >> 29)
}

} // verus!
