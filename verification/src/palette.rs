use vstd::prelude::*;

verus! {

/// How many colours the rainbow stripe has.
pub const RAINBOW_LEN: usize = 7;

/// Colour `i` (0 to 6) of the rainbow stripe, as red, green and blue.
pub open spec fn stripe_color(i: int) -> (u8, u8, u8) {
    if i == 0 {
        (255, 59, 48)
    } else if i == 1 {
        (255, 149, 0)
    } else if i == 2 {
        (255, 204, 0)
    } else if i == 3 {
        (76, 217, 100)
    } else if i == 4 {
        (90, 200, 250)
    } else if i == 5 {
        (0, 122, 255)
    } else {
        (175, 82, 222)
    }
}

/// The rainbow stripe colour for `index`, the stripe repeating every seven indices.
pub fn rainbow(index: usize) -> (c: (u8, u8, u8))
    ensures
        c == stripe_color((index % 7) as int),
{
    match index % RAINBOW_LEN {
        0 => (255, 59, 48),
        1 => (255, 149, 0),
        2 => (255, 204, 0),
        3 => (76, 217, 100),
        4 => (90, 200, 250),
        5 => (0, 122, 255),
        _ => (175, 82, 222),
    }
}

} // verus!
