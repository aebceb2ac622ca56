use vstd::prelude::*;

verus! {

/// A straight-alpha colour component from a premultiplied one, rounded to nearest and
/// capped at 255.
pub open spec fn unpremultiplied(c: int, a: int) -> int {
    let v = (c * 255 + a / 2) / a;
    if v > 255 { 255 } else { v }
}

/// Component `k` (0 to 3) of a pixel `(r, g, b, a)` in premultiplied alpha, turned into
/// straight alpha: a fully transparent pixel becomes all zero, an opaque one is kept.
pub open spec fn unpremultiplied_component(r: u8, g: u8, b: u8, a: u8, k: int) -> int {
    let c = if k == 0 { r } else if k == 1 { g } else if k == 2 { b } else { a };
    if a == 0 {
        0
    } else if a == 255 || k == 3 {
        c as int
    } else {
        unpremultiplied(c as int, a as int)
    }
}

/// Byte `i` of premultiplied RGBA pixels `bytes` once converted to straight alpha.
pub open spec fn unpremultiplied_byte(bytes: Seq<u8>, i: int) -> int {
    let base = i - i % 4;
    unpremultiplied_component(bytes[base], bytes[base + 1], bytes[base + 2], bytes[base + 3], i % 4)
}

/// Converts premultiplied RGBA pixels to straight alpha. Bytes past the last whole
/// pixel are dropped.
pub fn unpremultiply_rgba(bytes: &[u8]) -> (out: Vec<u8>)
    ensures
        out@.len() == bytes@.len() / 4 * 4,
        forall|i: int| 0 <= i < out@.len() ==> #[trigger] out@[i] == unpremultiplied_byte(bytes@, i),
        out@ == unpremultiplied_bytes(bytes@),
{
    let len = bytes.len();
    let n = len / 4;
    let mut out: Vec<u8> = Vec::new();
    let mut p: usize = 0;
    while p < n
        invariant
            len == bytes@.len(),
            n == bytes@.len() / 4,
            p <= n,
            out@.len() == 4 * p,
            forall|q: int, k: int|
                0 <= q < p && 0 <= k < 4 ==> #[trigger] out@[4 * q + k]
                    == unpremultiplied_component(
                    bytes@[4 * q],
                    bytes@[4 * q + 1],
                    bytes@[4 * q + 2],
                    bytes@[4 * q + 3],
                    k,
                ),
        decreases n - p,
    {
        assert(4 * p + 4 <= bytes@.len()) by (nonlinear_arith)
            requires
                p < n,
                n == bytes@.len() / 4,
        ;
        let r = bytes[4 * p];
        let g = bytes[4 * p + 1];
        let b = bytes[4 * p + 2];
        let a = bytes[4 * p + 3];
        let ghost before = out@;
        if a == 0 {
            out.push(0);
            out.push(0);
            out.push(0);
            out.push(0);
        } else if a == 255 {
            out.push(r);
            out.push(g);
            out.push(b);
            out.push(a);
        } else {
            out.push(unpremultiply_component(r, a));
            out.push(unpremultiply_component(g, a));
            out.push(unpremultiply_component(b, a));
            out.push(a);
        }
        assert forall|q: int, k: int| 0 <= q < p + 1 && 0 <= k < 4 implies #[trigger] out@[4 * q + k]
            == unpremultiplied_component(
            bytes@[4 * q],
            bytes@[4 * q + 1],
            bytes@[4 * q + 2],
            bytes@[4 * q + 3],
            k,
        ) by {
            if q < p {
                assert(out@[4 * q + k] == before[4 * q + k]);
            }
        }
        p = p + 1;
    }
    assert forall|i: int| 0 <= i < out@.len() implies #[trigger] out@[i] == unpremultiplied_byte(bytes@, i) by {
        let q = i / 4;
        let k = i % 4;
        vstd::arithmetic::div_mod::lemma_fundamental_div_mod(i, 4);
        assert(out@[4 * q + k] == unpremultiplied_component(
            bytes@[4 * q],
            bytes@[4 * q + 1],
            bytes@[4 * q + 2],
            bytes@[4 * q + 3],
            k,
        ));
    }
    assert(out@ =~= unpremultiplied_bytes(bytes@));
    out
}

/// One component of a pixel that is neither transparent nor opaque, in straight alpha.
fn unpremultiply_component(c: u8, a: u8) -> (v: u8)
    requires
        a > 0,
    ensures
        v == unpremultiplied(c as int, a as int),
{
    let c32 = c as u32;
    let a32 = a as u32;
    let v = (c32 * 255 + a32 / 2) / a32;
    if v > 255 {
        255
    } else {
        v as u8
    }
}

/// A straight-alpha component premultiplied by alpha `a`, rounded to nearest.
pub open spec fn premultiplied(c: int, a: int) -> int {
    (c * a + 127) / 255
}

/// Component `k` (0 to 3) of a straight-alpha pixel `(r, g, b, a)` in premultiplied
/// alpha: a fully transparent pixel gets zero colour, an opaque one is kept.
pub open spec fn premultiplied_component(r: u8, g: u8, b: u8, a: u8, k: int) -> int {
    let c = if k == 0 { r } else if k == 1 { g } else if k == 2 { b } else { a };
    if k == 3 || a == 255 {
        c as int
    } else if a == 0 {
        0
    } else {
        premultiplied(c as int, a as int)
    }
}

fn premultiply_component(c: u8, a: u8) -> (v: u8)
    ensures
        v == premultiplied(c as int, a as int),
{
    let c16 = c as u16;
    let a16 = a as u16;
    assert(c16 * a16 <= 255 * 255) by (nonlinear_arith)
        requires
            c16 <= 255,
            a16 <= 255,
    ;
    let v = (c16 * a16 + 127) / 255;
    v as u8
}

/// Byte `i` of straight-alpha RGBA pixels `data` once premultiplied.
pub open spec fn premultiplied_byte(data: Seq<u8>, i: int) -> int {
    let base = i - i % 4;
    premultiplied_component(data[base], data[base + 1], data[base + 2], data[base + 3], i % 4)
}

/// Converts straight-alpha RGBA pixels to premultiplied alpha in place. Bytes past the
/// last whole pixel are left as they are.
pub fn premultiply_rgba(data: &mut [u8])
    ensures
        final(data)@.len() == old(data)@.len(),
        forall|i: int|
            0 <= i < old(data)@.len() ==> #[trigger] final(data)@[i] == if i < old(data)@.len() / 4 * 4 {
                premultiplied_byte(old(data)@, i)
            } else {
                old(data)@[i] as int
            },
{
    let ghost orig = data@;
    let len = data.len();
    let n = len / 4;
    let mut p: usize = 0;
    while p < n
        invariant
            len == orig.len(),
            n == orig.len() / 4,
            p <= n,
            data@.len() == orig.len(),
            forall|q: int, k: int|
                0 <= q < p && 0 <= k < 4 ==> #[trigger] data@[4 * q + k]
                    == premultiplied_component(
                    orig[4 * q],
                    orig[4 * q + 1],
                    orig[4 * q + 2],
                    orig[4 * q + 3],
                    k,
                ),
            forall|i: int| 4 * p <= i < orig.len() ==> #[trigger] data@[i] == orig[i],
        decreases n - p,
    {
        assert(4 * p + 4 <= orig.len()) by (nonlinear_arith)
            requires
                p < n,
                n == orig.len() / 4,
        ;
        let a = data[4 * p + 3];
        let ghost before = data@;
        if a == 0 {
            data[4 * p] = 0;
            data[4 * p + 1] = 0;
            data[4 * p + 2] = 0;
        } else if a < 255 {
            let r = premultiply_component(data[4 * p], a);
            data[4 * p] = r;
            let g = premultiply_component(data[4 * p + 1], a);
            data[4 * p + 1] = g;
            let b = premultiply_component(data[4 * p + 2], a);
            data[4 * p + 2] = b;
        }
        assert forall|q: int, k: int| 0 <= q < p + 1 && 0 <= k < 4 implies #[trigger] data@[4 * q + k]
            == premultiplied_component(
            orig[4 * q],
            orig[4 * q + 1],
            orig[4 * q + 2],
            orig[4 * q + 3],
            k,
        ) by {
            if q < p {
                assert(data@[4 * q + k] == before[4 * q + k]);
            } else {
                assert(before[4 * q + k] == orig[4 * q + k]);
                assert(before[4 * q + 3] == orig[4 * q + 3]);
            }
        }
        p = p + 1;
    }
    assert forall|i: int| 0 <= i < orig.len() implies #[trigger] data@[i] == if i < orig.len() / 4 * 4 {
        premultiplied_byte(orig, i)
    } else {
        orig[i] as int
    } by {
        let q = i / 4;
        let k = i % 4;
        vstd::arithmetic::div_mod::lemma_fundamental_div_mod(i, 4);
        if i < orig.len() / 4 * 4 {
            assert(q < orig.len() / 4) by (nonlinear_arith)
                requires
                    i == 4 * q + k,
                    0 <= k < 4,
                    i < orig.len() / 4 * 4,
            ;
            assert(data@[4 * q + k] == premultiplied_component(
                orig[4 * q],
                orig[4 * q + 1],
                orig[4 * q + 2],
                orig[4 * q + 3],
                k,
            ));
        }
    }
}

/// A straight-alpha component with alpha `a` composited over white, rounded to nearest.
pub open spec fn over_white(c: int, a: int) -> int {
    (c * a + 255 * (255 - a) + 127) / 255
}

fn blend_over_white(c: u8, a: u8) -> (v: u8)
    ensures
        v == over_white(c as int, a as int),
{
    let alpha = a as u16;
    let inverse_alpha = 255u16 - alpha;
    let c16 = c as u16;
    assert(c16 * alpha + 255 * inverse_alpha + 127 <= 255 * 255 + 127 && (c16 * alpha + 255
        * inverse_alpha + 127) / 255 <= 255) by (nonlinear_arith)
        requires
            c16 <= 255,
            alpha <= 255,
            inverse_alpha == 255 - alpha,
    ;
    ((c16 * alpha + 255 * inverse_alpha + 127) / 255) as u8
}

/// Byte `i` of straight-alpha RGBA pixels `rgba` once flattened onto white as RGB:
/// component `i % 3` of pixel `i / 3`.
pub open spec fn over_white_byte(rgba: Seq<u8>, i: int) -> int {
    let p = i / 3;
    over_white(rgba[4 * p + i % 3] as int, rgba[4 * p + 3] as int)
}

/// Flattens straight-alpha RGBA pixels onto a white background, giving RGB. Bytes past
/// the last whole pixel are dropped.
pub fn rgba_to_rgb_over_white(rgba: &[u8]) -> (out: Vec<u8>)
    ensures
        out@.len() == rgba@.len() / 4 * 3,
        forall|i: int| 0 <= i < out@.len() ==> #[trigger] out@[i] == over_white_byte(rgba@, i),
{
    let len = rgba.len();
    let n = len / 4;
    let mut out: Vec<u8> = Vec::new();
    let mut p: usize = 0;
    while p < n
        invariant
            len == rgba@.len(),
            n == rgba@.len() / 4,
            p <= n,
            out@.len() == 3 * p,
            forall|q: int, k: int|
                0 <= q < p && 0 <= k < 3 ==> #[trigger] out@[3 * q + k] == over_white(
                    rgba@[4 * q + k] as int,
                    rgba@[4 * q + 3] as int,
                ),
        decreases n - p,
    {
        assert(4 * p + 4 <= rgba@.len()) by (nonlinear_arith)
            requires
                p < n,
                n == rgba@.len() / 4,
        ;
        let a = rgba[4 * p + 3];
        let ghost before = out@;
        out.push(blend_over_white(rgba[4 * p], a));
        out.push(blend_over_white(rgba[4 * p + 1], a));
        out.push(blend_over_white(rgba[4 * p + 2], a));
        assert forall|q: int, k: int| 0 <= q < p + 1 && 0 <= k < 3 implies #[trigger] out@[3 * q + k]
            == over_white(rgba@[4 * q + k] as int, rgba@[4 * q + 3] as int) by {
            if q < p {
                assert(out@[3 * q + k] == before[3 * q + k]);
            }
        }
        p = p + 1;
    }
    assert forall|i: int| 0 <= i < out@.len() implies #[trigger] out@[i] == over_white_byte(rgba@, i) by {
        let q = i / 3;
        let k = i % 3;
        vstd::arithmetic::div_mod::lemma_fundamental_div_mod(i, 3);
        assert(out@[3 * q + k] == over_white(rgba@[4 * q + k] as int, rgba@[4 * q + 3] as int));
    }
    out
}

/// Compositing over white keeps the colour of an opaque pixel and makes a fully
/// transparent one white.
pub proof fn lemma_over_white_extremes(c: int)
    requires
        0 <= c <= 255,
    ensures
        over_white(c, 255) == c,
        over_white(c, 0) == 255,
{
    assert(c * 255 + 255 * (255 - 255) + 127 == 255 * c + 127);
    assert(c * 0 + 255 * (255 - 0) + 127 == 255 * 255 + 127);
}

/// Opaque pixels come through premultiplying and unpremultiplying unchanged, and fully
/// transparent ones come out all zero.
pub proof fn lemma_alpha_extremes_round_trip(r: u8, g: u8, b: u8, a: u8, k: int)
    requires
        a == 0 || a == 255,
        0 <= k < 4,
    ensures
        ({
            let pr = premultiplied_component(r, g, b, a, 0) as u8;
            let pg = premultiplied_component(r, g, b, a, 1) as u8;
            let pb = premultiplied_component(r, g, b, a, 2) as u8;
            let pa = premultiplied_component(r, g, b, a, 3) as u8;
            unpremultiplied_component(pr, pg, pb, pa, k) == if a == 0 {
                0
            } else {
                premultiplied_component(r, g, b, a, k)
            }
        }),
{
}

/// Whether `x` is valid premultiplied RGBA: whole pixels only, and no colour component
/// above its pixel's alpha.
pub open spec fn valid_premultiplied(x: Seq<u8>) -> bool {
    &&& x.len() % 4 == 0
    &&& forall|i: int| 0 <= i < x.len() ==> #[trigger] x[i] <= x[i - i % 4 + 3]
}

/// The bytes that `unpremultiply_rgba` gives for `x`.
pub open spec fn unpremultiplied_bytes(x: Seq<u8>) -> Seq<u8> {
    Seq::new((x.len() / 4 * 4) as nat, |i: int| unpremultiplied_byte(x, i) as u8)
}

/// Unpremultiplying and then premultiplying again gives back a colour component that is
/// at most its alpha.
pub proof fn lemma_component_round_trip(c: int, a: int)
    requires
        0 < a < 255,
        0 <= c <= a,
    ensures
        0 <= unpremultiplied(c, a) <= 255,
        premultiplied(unpremultiplied(c, a), a) == c,
{
    let n = c * 255 + a / 2;
    let q = n / a;
    let r = n % a;
    vstd::arithmetic::div_mod::lemma_fundamental_div_mod(n, a);
    assert(0 <= r < a) by {
        vstd::arithmetic::div_mod::lemma_mod_pos_bound(n, a);
    }
    assert(a * q == q * a) by (nonlinear_arith);
    assert(q * a <= n && n < q * a + a);
    assert(c * 255 <= a * 255) by (nonlinear_arith)
        requires
            c <= a,
    ;
    assert(0 <= q <= 255) by (nonlinear_arith)
        requires
            q * a <= n,
            n < q * a + a,
            n == c * 255 + a / 2,
            c * 255 <= a * 255,
            0 <= c,
            0 < a,
    ;
    assert(unpremultiplied(c, a) == q);
    let m = q * a + 127;
    assert(255 * c <= m < 255 * c + 255) by (nonlinear_arith)
        requires
            q * a <= n,
            n < q * a + a,
            n == c * 255 + a / 2,
            a < 255,
            0 < a,
            m == q * a + 127,
    ;
    vstd::arithmetic::div_mod::lemma_fundamental_div_mod_converse(m, 255, c, m - 255 * c);
}

/// Premultiplying the unpremultiplied bytes of valid premultiplied RGBA gives back
/// exactly the bytes it started from.
pub proof fn lemma_unpremultiply_then_premultiply(x: Seq<u8>)
    requires
        valid_premultiplied(x),
    ensures
        unpremultiplied_bytes(x).len() == x.len(),
        forall|i: int| 0 <= i < x.len() ==> #[trigger] premultiplied_byte(unpremultiplied_bytes(x), i) == x[i] as int,
{
    let u = unpremultiplied_bytes(x);
    assert forall|i: int| 0 <= i < x.len() implies #[trigger] premultiplied_byte(u, i) == x[i] as int by {
        let p = i / 4;
        let k = i % 4;
        vstd::arithmetic::div_mod::lemma_fundamental_div_mod(i, 4);
        let b = 4 * p;
        assert(b + 3 < x.len());
        assert(i - i % 4 == b);
        vstd::arithmetic::div_mod::lemma_fundamental_div_mod_converse(b, 4, p, 0);
        vstd::arithmetic::div_mod::lemma_fundamental_div_mod_converse(b + 1, 4, p, 1);
        vstd::arithmetic::div_mod::lemma_fundamental_div_mod_converse(b + 2, 4, p, 2);
        vstd::arithmetic::div_mod::lemma_fundamental_div_mod_converse(b + 3, 4, p, 3);
        let a = x[b + 3];
        assert(x[b + k] <= a) by {
            assert(x[b + k] <= x[(b + k) - (b + k) % 4 + 3]);
        }
        assert(u[b] == unpremultiplied_component(x[b], x[b + 1], x[b + 2], x[b + 3], 0) as u8);
        assert(u[b + 1] == unpremultiplied_component(x[b], x[b + 1], x[b + 2], x[b + 3], 1) as u8);
        assert(u[b + 2] == unpremultiplied_component(x[b], x[b + 1], x[b + 2], x[b + 3], 2) as u8);
        assert(u[b + 3] == unpremultiplied_component(x[b], x[b + 1], x[b + 2], x[b + 3], 3) as u8);
        assert(u[b + 3] == a);
        if k < 3 && 0 < a < 255 {
            lemma_component_round_trip(x[b + k] as int, a as int);
        }
    }
}

} // verus!
