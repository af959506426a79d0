//! The banded palette: an iteration count picks its colour by its remainder
//! modulo 256.

use vstd::prelude::*;

verus! {

/// A pixel colour, one byte per channel.
#[derive(Clone, Copy, Debug, PartialEq, Eq, Structural)]
pub struct Color {
    pub red: u8,
    pub green: u8,
    pub blue: u8,
}

/// The grey whose three channels all hold `level`.
pub open spec fn grey(level: u8) -> Color {
    Color { red: level, green: level, blue: level }
}

/// The colour of a band. Bands 1 to 95 fall into eight fixed buckets; band 0
/// and the bands from 96 up are the grey of their own number.
pub open spec fn band_color(band: u8) -> Color {
    if band == 1 {
        Color { red: 0, green: 0, blue: 0 }
    } else if band == 2 {
        Color { red: 80, green: 0, blue: 0 }
    } else if band == 3 {
        Color { red: 125, green: 0, blue: 0 }
    } else if 4 <= band <= 8 {
        Color { red: 195, green: 50, blue: 50 }
    } else if 9 <= band <= 20 {
        Color { red: 255, green: 150, blue: 10 }
    } else if 21 <= band <= 25 {
        Color { red: 15, green: 180, blue: 5 }
    } else if 26 <= band <= 50 {
        Color { red: 50, green: 25, blue: 250 }
    } else if 51 <= band <= 95 {
        Color { red: 255, green: 0, blue: 255 }
    } else {
        grey(band)
    }
}

/// The band of an iteration count: its remainder modulo 256.
pub open spec fn band_of(iterations: nat) -> u8 {
    (iterations % 256) as u8
}

/// The colour of an iteration count.
pub open spec fn color_of(iterations: nat) -> Color {
    band_color(band_of(iterations))
}

/// Computes the colour of an iteration count.
pub fn pixel_color(iterations: usize) -> (color: Color)
    ensures
        color == color_of(iterations as nat),
{
    let band: u8 = (iterations % 256) as u8;
    match band {
        1 => Color { red: 0, green: 0, blue: 0 },
        2 => Color { red: 80, green: 0, blue: 0 },
        3 => Color { red: 125, green: 0, blue: 0 },
        4..=8 => Color { red: 195, green: 50, blue: 50 },
        9..=20 => Color { red: 255, green: 150, blue: 10 },
        21..=25 => Color { red: 15, green: 180, blue: 5 },
        26..=50 => Color { red: 50, green: 25, blue: 250 },
        51..=95 => Color { red: 255, green: 0, blue: 255 },
        _ => Color { red: band, green: band, blue: band },
    }
}

/// The palette repeats every 256 counts.
pub proof fn lemma_palette_repeats(iterations: nat)
    ensures
        color_of(iterations + 256) == color_of(iterations),
{
}

/// A count that is a multiple of 256 is black, the grey of band 0. So is a
/// cap that was reached, where the cap is such a multiple.
pub proof fn lemma_multiple_of_256_is_black(iterations: nat)
    requires
        iterations % 256 == 0,
    ensures
        color_of(iterations) == grey(0),
        color_of(iterations) == (Color { red: 0, green: 0, blue: 0 }),
{
}

/// Outside the eight buckets the palette is grey: band 0 and the bands from
/// 96 up have the grey of their own number.
pub proof fn lemma_grey_outside_buckets(iterations: nat)
    requires
        band_of(iterations) == 0 || band_of(iterations) >= 96,
    ensures
        color_of(iterations) == grey(band_of(iterations)),
{
}

} // verus!
