use vstd::prelude::*;

use crate::palette::{rainbow, stripe_color, RAINBOW_LEN};

verus! {

/// The width and height of the application icon, in pixels.
pub const ICON_SIZE: u32 = 64;

/// The radius of the icon's rounded corners, in pixels.
pub const ICON_CORNER_RADIUS: u32 = 12;

/// The centre of the corner circle whose zone the pixel `(x, y)` lies in, if any, for a
/// square of side `size` with corners of `radius`.
pub open spec fn corner_center(x: int, y: int, size: int, radius: int) -> Option<(int, int)> {
    let last = size - 1;
    if x < radius && y < radius {
        Some((radius, radius))
    } else if x > last - radius && y < radius {
        Some((last - radius, radius))
    } else if x < radius && y > last - radius {
        Some((radius, last - radius))
    } else if x > last - radius && y > last - radius {
        Some((last - radius, last - radius))
    } else {
        None
    }
}

/// 255 where the pixel `(x, y)` lies inside the rounded square, 0 where it lies outside:
/// outside the corner zones everything is inside, within one it is inside when at most
/// `radius` away from the corner's centre.
pub open spec fn rounded_alpha(x: int, y: int, size: int, radius: int) -> u8 {
    match corner_center(x, y, size, radius) {
        Some((cx, cy)) => if (x - cx) * (x - cx) + (y - cy) * (y - cy) <= radius * radius {
            255
        } else {
            0
        },
        None => 255,
    }
}

/// The distance from `a` to `b`.
fn gap(a: u32, b: u32) -> (d: u128)
    ensures
        d == (if a >= b { a - b } else { b - a }),
{
    if a >= b {
        (a - b) as u128
    } else {
        (b - a) as u128
    }
}

/// The opacity of pixel `(x, y)` of a `size`-square icon with corners of `radius`:
/// 255 inside the rounded square, 0 outside, by an exact distance check at each corner.
pub fn corner_alpha(x: u32, y: u32, size: u32, radius: u32) -> (alpha: u8)
    requires
        size >= 1,
        radius <= size - 1 || (x < radius && y < radius),
    ensures
        alpha == rounded_alpha(x as int, y as int, size as int, radius as int),
{
    let (cx, cy) = if x < radius && y < radius {
        (radius, radius)
    } else {
        let last = size - 1;
        if x > last - radius && y < radius {
            (last - radius, radius)
        } else if x < radius && y > last - radius {
            (radius, last - radius)
        } else if x > last - radius && y > last - radius {
            (last - radius, last - radius)
        } else {
            return 255;
        }
    };
    let dx = gap(x, cx);
    let dy = gap(y, cy);
    let r = radius as u128;
    assert(dx * dx <= 0xffff_ffff * 0xffff_ffff && dy * dy <= 0xffff_ffff * 0xffff_ffff) by (nonlinear_arith)
        requires
            dx <= 0xffff_ffff,
            dy <= 0xffff_ffff,
    ;
    assert(r * r <= 0xffff_ffff * 0xffff_ffff) by (nonlinear_arith)
        requires
            r <= 0xffff_ffff,
    ;
    proof {
        let ix = x as int - cx as int;
        let iy = y as int - cy as int;
        assert(ix * ix == dx * dx) by (nonlinear_arith)
            requires
                dx == ix || dx == -ix,
        ;
        assert(iy * iy == dy * dy) by (nonlinear_arith)
            requires
                dy == iy || dy == -iy,
        ;
    }
    if dx * dx + dy * dy <= r * r {
        255
    } else {
        0
    }
}

/// The rounded square is symmetric: mirroring a pixel left to right or top to bottom,
/// or swapping its coordinates, keeps its opacity, as long as the corners do not
/// overlap.
pub proof fn lemma_rounded_alpha_symmetric(x: int, y: int, size: int, radius: int)
    requires
        size >= 1,
        0 <= x < size,
        0 <= y < size,
        0 <= radius,
        2 * radius <= size,
    ensures
        rounded_alpha(x, y, size, radius) == rounded_alpha(size - 1 - x, y, size, radius),
        rounded_alpha(x, y, size, radius) == rounded_alpha(x, size - 1 - y, size, radius),
        rounded_alpha(x, y, size, radius) == rounded_alpha(y, x, size, radius),
{
    let last = size - 1;
    let mx = last - x;
    let my = last - y;
    assert((x - radius) * (x - radius) == (mx - (last - radius)) * (mx - (last - radius))) by (nonlinear_arith)
        requires mx == last - x;
    assert((x - (last - radius)) * (x - (last - radius)) == (mx - radius) * (mx - radius)) by (nonlinear_arith)
        requires mx == last - x;
    assert((y - radius) * (y - radius) == (my - (last - radius)) * (my - (last - radius))) by (nonlinear_arith)
        requires my == last - y;
    assert((y - (last - radius)) * (y - (last - radius)) == (my - radius) * (my - radius)) by (nonlinear_arith)
        requires my == last - y;
}

/// The opacities that `corner_alpha` gives are symmetric under both mirrors and under
/// swapping the coordinates, for a square whose corners do not overlap.
pub proof fn lemma_corner_alpha_symmetric(x: u32, y: u32, size: u32, radius: u32)
    requires
        size >= 1,
        2 * radius <= size,
        x < size,
        y < size,
    ensures
        radius <= size - 1,
        rounded_alpha(x as int, y as int, size as int, radius as int) == rounded_alpha((size - 1 - x) as int, y as int, size as int, radius as int),
        rounded_alpha(x as int, y as int, size as int, radius as int) == rounded_alpha(x as int, (size - 1 - y) as int, size as int, radius as int),
        rounded_alpha(x as int, y as int, size as int, radius as int) == rounded_alpha(y as int, x as int, size as int, radius as int),
{
    lemma_rounded_alpha_symmetric(x as int, y as int, size as int, radius as int);
}

/// The band of the icon's stripes that row `y` falls in: seven bands of nine rows, the
/// last one running on to the bottom.
pub open spec fn icon_band(y: int) -> int {
    if y / 9 < 6 {
        y / 9
    } else {
        6
    }
}

/// Byte `k` (0 to 3) of pixel `p` of the application icon, read row by row: the colour
/// of the row's band, then the rounded-corner opacity.
pub open spec fn icon_byte(p: int, k: int) -> u8 {
    let y = p / 64;
    let x = p % 64;
    let (r, g, b) = stripe_color(icon_band(y));
    if k == 0 {
        r
    } else if k == 1 {
        g
    } else if k == 2 {
        b
    } else {
        rounded_alpha(x, y, 64, 12)
    }
}

/// The RGBA pixels of the 64 by 64 application icon: horizontal rainbow bands in a
/// square with rounded corners.
pub fn generate_rainbow_icon() -> (rgba: Vec<u8>)
    ensures
        rgba@.len() == 64 * 64 * 4,
        forall|i: int| 0 <= i < rgba@.len() ==> #[trigger] rgba@[i] == icon_byte(i / 4, i % 4),
{
    let mut rgba: Vec<u8> = Vec::new();
    let band_count: u32 = RAINBOW_LEN as u32;
    let band_height: u32 = ICON_SIZE / band_count;
    let mut y: u32 = 0;
    while y < ICON_SIZE
        invariant
            band_count == 7,
            band_height == 9,
            y <= 64,
            rgba@.len() == 4 * (64 * y),
            forall|q: int, k: int| 0 <= q < 64 * y && 0 <= k < 4 ==> #[trigger] rgba@[4 * q + k] == icon_byte(q, k),
        decreases 64 - y,
    {
        let band = if y / band_height < band_count - 1 {
            y / band_height
        } else {
            band_count - 1
        };
        let (r, g, b) = rainbow(band as usize);
        assert((band as usize) % 7 == band);
        let mut x: u32 = 0;
        while x < ICON_SIZE
            invariant
                y < 64,
                x <= 64,
                band == icon_band(y as int),
                (r, g, b) == stripe_color(band as int),
                rgba@.len() == 4 * (64 * y + x),
                forall|q: int, k: int| 0 <= q < 64 * y + x && 0 <= k < 4 ==> #[trigger] rgba@[4 * q + k] == icon_byte(q, k),
            decreases 64 - x,
        {
            let alpha = corner_alpha(x, y, ICON_SIZE, ICON_CORNER_RADIUS);
            let ghost before = rgba@;
            rgba.push(r);
            rgba.push(g);
            rgba.push(b);
            rgba.push(alpha);
            proof {
                let p = 64 * y + x;
                assert(p / 64 == y as int && p % 64 == x as int) by (nonlinear_arith)
                    requires
                        p == 64 * y + x,
                        x < 64,
                ;
                assert forall|q: int, k: int| 0 <= q < p + 1 && 0 <= k < 4 implies #[trigger] rgba@[4 * q + k] == icon_byte(q, k) by {
                    if q < p {
                        assert(rgba@[4 * q + k] == before[4 * q + k]);
                    }
                }
            }
            x = x + 1;
        }
        y = y + 1;
    }
    assert forall|i: int| 0 <= i < rgba@.len() implies #[trigger] rgba@[i] == icon_byte(i / 4, i % 4) by {
        let q = i / 4;
        let k = i % 4;
        vstd::arithmetic::div_mod::lemma_fundamental_div_mod(i, 4);
        assert(rgba@[4 * q + k] == icon_byte(q, k));
    }
    rgba
}

} // verus!
