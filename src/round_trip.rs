//! How close a conversion and its inverse bring a colour back: an RGBA
//! colour returns within two units per channel; an HSVA colour returns with
//! its value exact and with saturation and hue errors that grow as the colour
//! darkens or greys. Also how far saturation moves when channels move a
//! little.
use vstd::prelude::*;
use vstd::arithmetic::div_mod::{
    lemma_div_of0, lemma_fundamental_div_mod, lemma_fundamental_div_mod_converse, lemma_mod_pos_bound,
};
use crate::color::{
    chroma_of, hue_of, lemma_conversions_wf, lemma_scaled_down, max3, middle_of, min3, rgb_of,
    saturation_of, Color, HUE_SECTOR, HUE_TURN, ONE,
};

verus! {

/// `q == n / d` and `r == n % d` with their defining facts, for `n >= 0`.
proof fn lemma_div_facts(n: int, d: int)
    requires
        n >= 0,
        d > 0,
    ensures
        n == d * (n / d) + n % d,
        0 <= n % d < d,
{
    lemma_fundamental_div_mod(n, d);
    lemma_mod_pos_bound(n, d);
}

/// With saturation `s = ONE * d / hi`, the chroma `hi * s / ONE` recovers the
/// spread `d` to within one unit, from below.
proof fn lemma_chroma_recovers_spread(d: int, hi: int)
    requires
        0 < d <= hi <= ONE,
    ensures
        0 <= (ONE * d) / hi <= ONE,
        d - 1 <= chroma_of((ONE * d) / hi, hi) <= d,
{
    let one = ONE as int;
    let s = (one * d) / hi;
    lemma_div_facts(one * d, hi);
    let r1 = (one * d) % hi;
    assert(0 <= s <= one) by (nonlinear_arith)
        requires
            one * d == hi * s + r1,
            0 <= r1 < hi,
            0 < d <= hi <= one,
    ;
    assert(hi * s >= 0) by (nonlinear_arith)
        requires
            hi > 0,
            s >= 0,
    ;
    let c = (hi * s) / one;
    lemma_div_facts(hi * s, one);
    let r2 = (hi * s) % one;
    assert(d - 1 <= c <= d) by (nonlinear_arith)
        requires
            one * d == hi * s + r1,
            0 <= r1 < hi,
            hi * s == one * c + r2,
            0 <= r2 < one,
            0 < d <= hi <= one,
    ;
}

/// A numerator `n + base * d` over `d` exceeds `base` by the floor of `n / d`.
proof fn lemma_floor_offset(n: int, d: int, base: int)
    requires
        d > 0,
        n + base * d >= 0,
    ensures
        ((n + base * d) / d - base) * d <= n < ((n + base * d) / d - base) * d + d,
{
    let q = (n + base * d) / d;
    lemma_div_facts(n + base * d, d);
    let r = (n + base * d) % d;
    assert((q - base) * d <= n < (q - base) * d + d) by (nonlinear_arith)
        requires
            n + base * d == d * q + r,
            0 <= r < d,
    ;
}

/// The middle component, from a chroma `c` close to the spread `d` and a
/// factor `k` close to `HUE_SECTOR * t / d`, lands within two units below `t`.
proof fn lemma_middle_close(t: int, d: int, c: int, k: int)
    requires
        0 <= t <= d <= ONE,
        d > 0,
        0 <= c,
        d - 1 <= c <= d,
        0 <= k <= HUE_SECTOR,
        HUE_SECTOR * t - d < k * d < HUE_SECTOR * t + d,
    ensures
        t - 2 <= (c * k) / (HUE_SECTOR as int) <= t,
        (c * k) / (HUE_SECTOR as int) <= c,
{
    let s = HUE_SECTOR as int;
    assert(c * k >= 0) by (nonlinear_arith)
        requires
            c >= 0,
            k >= 0,
    ;
    lemma_div_facts(c * k, s);
    let x = (c * k) / s;
    let rr = (c * k) % s;
    assert(c * k <= d * k && d * k - k <= c * k) by (nonlinear_arith)
        requires
            d - 1 <= c <= d,
            k >= 0,
    ;
    assert(x <= t) by (nonlinear_arith)
        requires
            c * k == s * x + rr,
            0 <= rr,
            c * k <= d * k,
            k * d < s * t + d,
            d <= ONE,
            s == HUE_SECTOR,
    ;
    assert(c * k <= c * s) by (nonlinear_arith)
        requires
            k <= s,
            c >= 0,
    ;
    assert(x <= c) by (nonlinear_arith)
        requires
            c * k == s * x + rr,
            0 <= rr,
            c * k <= c * s,
            s > 0,
    ;
    assert(t - 2 <= x) by (nonlinear_arith)
        requires
            c * k == s * x + rr,
            rr < s,
            d * k - k <= c * k,
            s * t - d < k * d,
            k <= s,
            d <= ONE,
            s == HUE_SECTOR,
    ;
}

/// A floor quotient `u` of `HUE_SECTOR * t / d` with `t <= d` lies in
/// `0..=HUE_SECTOR`, reaching the top exactly when `t == d`.
proof fn lemma_floor_factor(t: int, d: int, u: int)
    requires
        0 <= t <= d <= ONE,
        d > 0,
        u * d <= HUE_SECTOR * t < u * d + d,
    ensures
        0 <= u <= HUE_SECTOR,
        u == HUE_SECTOR <==> t == d,
{
    let s = HUE_SECTOR as int;
    assert(0 <= u <= s && (u == s <==> t == d)) by (nonlinear_arith)
        requires
            s == HUE_SECTOR,
            0 <= t <= d <= ONE,
            d > 0,
            u * d <= s * t < u * d + d,
    ;
}

/// A ceiling quotient `j` of `HUE_SECTOR * t / d` with `0 < t <= d` lies in
/// `1..=HUE_SECTOR`.
proof fn lemma_ceil_factor(t: int, d: int, j: int)
    requires
        0 < t <= d <= ONE,
        s_t_bounds(t, d, j),
    ensures
        1 <= j <= HUE_SECTOR,
{
    let s = HUE_SECTOR as int;
    assert(1 <= j <= s) by (nonlinear_arith)
        requires
            s == HUE_SECTOR,
            0 < t <= d <= ONE,
            s * t <= j * d < s * t + d,
    ;
}

/// `j` is the ceiling of `HUE_SECTOR * t / d`.
spec fn s_t_bounds(t: int, d: int, j: int) -> bool {
    HUE_SECTOR * t <= j * d < HUE_SECTOR * t + d
}

/// Where a hue `h` in sector `q` sits: its sector and its offset within a
/// pair of sectors.
proof fn lemma_on_wheel(h: int, q: int)
    requires
        0 <= q < 6,
        q * HUE_SECTOR <= h < q * HUE_SECTOR + HUE_SECTOR,
    ensures
        h / (HUE_SECTOR as int) == q,
        h % (2 * HUE_SECTOR as int) == h - (q / 2) * (2 * HUE_SECTOR),
{
    let s = HUE_SECTOR as int;
    lemma_fundamental_div_mod_converse(h, s, q, h - q * s);
    let p = q / 2;
    assert(0 <= h - p * (2 * s) < 2 * s) by (nonlinear_arith)
        requires
            0 <= q < 6,
            p == q / 2,
            q * s <= h < q * s + s,
            s > 0,
    ;
    lemma_fundamental_div_mod_converse(h, 2 * s, p, h - p * (2 * s));
}

/// A hue whose numerator `60 * (p - q)` is not negative sits `u` above
/// `base`, with `u` the floor of `HUE_SECTOR * (p - q) / d`.
proof fn lemma_hue_floor(p: int, q: int, d: int, base: int)
    requires
        0 <= p - q <= d <= ONE,
        d > 0,
        base >= 0,
    ensures
        ({
            let u = (HUE_SECTOR * (p - q) + base * d) / d - base;
            &&& u * d <= HUE_SECTOR * (p - q) < u * d + d
            &&& 0 <= u <= HUE_SECTOR
            &&& (u == HUE_SECTOR <==> p - q == d)
        }),
{
    let s = HUE_SECTOR as int;
    assert(s * (p - q) >= 0) by (nonlinear_arith)
        requires
            s > 0,
            p - q >= 0,
    ;
    assert(base * d >= 0) by (nonlinear_arith)
        requires
            base >= 0,
            d > 0,
    ;
    lemma_floor_offset(s * (p - q), d, base);
    lemma_floor_factor(p - q, d, (s * (p - q) + base * d) / d - base);
}

/// A hue whose numerator `60 * (p - q)` is negative sits `j` below `base`,
/// with `j` the ceiling of `HUE_SECTOR * (q - p) / d`.
proof fn lemma_hue_ceil(p: int, q: int, d: int, base: int)
    requires
        0 < q - p <= d <= ONE,
        base >= HUE_SECTOR,
    ensures
        ({
            let j = base - (HUE_SECTOR * (p - q) + base * d) / d;
            &&& s_t_bounds(q - p, d, j)
            &&& 1 <= j <= HUE_SECTOR
        }),
{
    let s = HUE_SECTOR as int;
    assert(s * (p - q) + base * d >= 0 && s * (p - q) == -(s * (q - p))) by (nonlinear_arith)
        requires
            s > 0,
            0 < q - p <= d,
            base >= s,
    ;
    lemma_floor_offset(s * (p - q), d, base);
    let j = base - (s * (p - q) + base * d) / d;
    assert(s * (q - p) <= j * d < s * (q - p) + d) by (nonlinear_arith)
        requires
            s * (p - q) == -(s * (q - p)),
            (-j) * d <= s * (p - q) < (-j) * d + d,
    ;
    assert(s_t_bounds(q - p, d, j));
    lemma_ceil_factor(q - p, d, j);
}

/// Two fixed-point values that differ by at most two units.
pub open spec fn within_two(a: int, b: int) -> bool {
    -2 <= a - b <= 2
}

/// Converting an RGBA colour to HSVA and back gives every channel to within
/// two units (`2 / ONE`) and alpha exactly.
pub proof fn lemma_rgba_round_trip(c: Color)
    requires
        c.wf(),
        c is Rgba,
    ensures
        within_two(c.hsva_of().rgba_of()->red as int, c->red as int),
        within_two(c.hsva_of().rgba_of()->green as int, c->green as int),
        within_two(c.hsva_of().rgba_of()->blue as int, c->blue as int),
        c.hsva_of().rgba_of().alpha_of() == c.alpha_of(),
{
    let (r, g, b) = (c->red as int, c->green as int, c->blue as int);
    let hi = max3(r, g, b);
    let lo = min3(r, g, b);
    let d = hi - lo;
    let h = hue_of(r, g, b);
    let sat = saturation_of(r, g, b);
    let sector = HUE_SECTOR as int;
    if d == 0 {
        if hi > 0 {
            lemma_div_facts(0, hi);
            lemma_div_of0(hi);
        }
        assert(hi * 0 == 0);
        lemma_div_of0(ONE as int);
        assert(chroma_of(0, hi) == 0);
        assert(0int * (sector - sector) == 0);
        lemma_div_of0(sector);
        lemma_on_wheel(0, 0);
        assert(middle_of(0, 0) == 0);
        assert(rgb_of(0, 0, hi) == (hi, hi, hi));
    } else {
        lemma_chroma_recovers_spread(d, hi);
        let ch = chroma_of(sat, hi);
        if hi == r && g >= b {
            lemma_hue_floor(g, b, d, 0);
            let u = h;
            if u < sector {
                lemma_on_wheel(h, 0);
            } else {
                lemma_on_wheel(h, 1);
            }
            lemma_middle_close(g - b, d, ch, u);
        } else if hi == r {
            lemma_hue_ceil(g, b, d, 6 * sector);
            lemma_on_wheel(h, 5);
            lemma_middle_close(b - g, d, ch, 6 * sector - h);
        } else if hi == g && b >= r {
            lemma_hue_floor(b, r, d, 2 * sector);
            let u = h - 2 * sector;
            if u < sector {
                lemma_on_wheel(h, 2);
            } else {
                lemma_on_wheel(h, 3);
            }
            lemma_middle_close(b - r, d, ch, u);
        } else if hi == g {
            lemma_hue_ceil(b, r, d, 2 * sector);
            lemma_on_wheel(h, 1);
            lemma_middle_close(r - b, d, ch, 2 * sector - h);
        } else if r >= g {
            lemma_hue_floor(r, g, d, 4 * sector);
            let u = h - 4 * sector;
            if u < sector {
                lemma_on_wheel(h, 4);
            } else {
                lemma_on_wheel(h, 5);
            }
            lemma_middle_close(r - g, d, ch, u);
        } else {
            lemma_hue_ceil(r, g, d, 4 * sector);
            lemma_on_wheel(h, 3);
            lemma_middle_close(g - r, d, ch, 4 * sector - h);
        }
    }
}

/// Converting an HSVA colour to RGBA and back keeps value and alpha exactly.
/// Saturation comes back from below, short by less than `ONE / value + 1`
/// units: the loss grows as the colour darkens, and is under two units at
/// full value.
pub proof fn lemma_hsva_round_trip(c: Color)
    requires
        c.wf(),
        c is Hsva,
    ensures
        c.rgba_of().hsva_of()->value == c->value,
        c.rgba_of().hsva_of().alpha_of() == c.alpha_of(),
        c.rgba_of().hsva_of()->saturation <= c->saturation,
        (c->saturation - c.rgba_of().hsva_of()->saturation - 1) * c->value < ONE,
{
    let (h, s, v) = (c->hue as int, c->saturation as int, c->value as int);
    let sector = HUE_SECTOR as int;
    let one = ONE as int;
    lemma_scaled_down(v, s, 0, 0);
    let ch = chroma_of(s, v);
    lemma_mod_pos_bound(h, 2 * sector);
    let off = h % (2 * sector) - sector;
    let dist = if off >= 0 { off } else { -off };
    lemma_scaled_down(v, s, ch, sector - dist);
    let x = middle_of(h, ch);
    let m = v - ch;
    let t = rgb_of(h, s, v);
    assert(max3(t.0, t.1, t.2) == v && min3(t.0, t.1, t.2) == m);
    if v > 0 {
        lemma_div_facts(v * s, one);
        let r1 = (v * s) % one;
        lemma_div_facts(one * ch, v);
        let s2 = (one * ch) / v;
        let r2 = (one * ch) % v;
        assert(0 <= s2 <= s && (s - s2 - 1) * v < one) by (nonlinear_arith)
            requires
                v * s == one * ch + r1,
                0 <= r1 < one,
                one * ch == v * s2 + r2,
                0 <= r2 < v,
                0 <= ch,
                v > 0,
                s >= 0,
        ;
        assert(saturation_of(t.0, t.1, t.2) == s2);
    } else {
        assert(saturation_of(t.0, t.1, t.2) == 0);
        assert((s - 1) * v == 0) by (nonlinear_arith)
            requires
                v == 0,
        ;
    }
}

/// Two hues at most `HUE_SECTOR / ch + 1` units apart, going either way
/// round the wheel.
pub open spec fn hue_near(a: int, b: int, ch: int) -> bool {
    let e = if a >= b { a - b } else { b - a };
    (e - 1) * ch < HUE_SECTOR || (HUE_TURN - e - 1) * ch < HUE_SECTOR
}

/// A hue is near itself.
proof fn lemma_hue_near_itself(a: int, ch: int)
    requires
        ch > 0,
    ensures
        hue_near(a, a, ch),
{
    assert((0 - 1) * ch < HUE_SECTOR) by (nonlinear_arith)
        requires
            ch > 0,
    ;
}

/// The middle component `x = c * k / HUE_SECTOR` with its rounding.
proof fn lemma_middle_facts(c: int, k: int)
    requires
        0 < c <= ONE,
        0 <= k <= HUE_SECTOR,
    ensures
        0 <= (c * k) / (HUE_SECTOR as int) <= c,
        HUE_SECTOR * ((c * k) / (HUE_SECTOR as int)) <= c * k,
        c * k < HUE_SECTOR * ((c * k) / (HUE_SECTOR as int)) + HUE_SECTOR,
{
    let s = HUE_SECTOR as int;
    lemma_scaled_down(c, 0, c, k);
    assert(c * k >= 0) by (nonlinear_arith)
        requires
            c > 0,
            k >= 0,
    ;
    lemma_div_facts(c * k, s);
}

/// A hue read back through a floor quotient `u` misses the offset `k` by
/// `k - u`, which is at least 0 and at most `HUE_SECTOR / c + 1`.
proof fn lemma_floor_err(u: int, x: int, k: int, c: int)
    requires
        c > 0,
        u * c <= HUE_SECTOR * x < u * c + c,
        HUE_SECTOR * x <= c * k,
        c * k < HUE_SECTOR * x + HUE_SECTOR,
    ensures
        0 <= k - u,
        (k - u - 1) * c < HUE_SECTOR,
        x == 0 ==> u == 0,
{
    let s = HUE_SECTOR as int;
    assert(x == 0 ==> u == 0) by (nonlinear_arith)
        requires
            c > 0,
            u * c <= s * x < u * c + c,
    ;
    assert(0 <= k - u && (k - u - 1) * c < s) by (nonlinear_arith)
        requires
            c > 0,
            u * c <= s * x < u * c + c,
            s * x <= c * k,
            c * k < s * x + s,
    ;
}

/// A hue read back through a ceiling quotient `j` misses the offset `k` by
/// `k - j`, which is at least 0 and below `HUE_SECTOR / c`.
proof fn lemma_ceil_err(j: int, x: int, k: int, c: int)
    requires
        c > 0,
        HUE_SECTOR * x <= j * c < HUE_SECTOR * x + c,
        HUE_SECTOR * x <= c * k,
        c * k < HUE_SECTOR * x + HUE_SECTOR,
    ensures
        0 <= k - j,
        (k - j - 1) * c < HUE_SECTOR,
{
    let s = HUE_SECTOR as int;
    assert(0 <= k - j && (k - j - 1) * c < s) by (nonlinear_arith)
        requires
            c > 0,
            s * x <= j * c < s * x + c,
            s * x <= c * k,
            c * k < s * x + s,
    ;
}

/// A middle component equal to the chroma needs the full offset.
proof fn lemma_full_middle(x: int, k: int, c: int)
    requires
        c > 0,
        x == c,
        HUE_SECTOR * x <= c * k,
    ensures
        k >= HUE_SECTOR,
{
    let s = HUE_SECTOR as int;
    assert(k >= s) by (nonlinear_arith)
        requires
            c > 0,
            s * c <= c * k,
    ;
}

/// Converting an HSVA colour of positive chroma `c = value * saturation` to
/// RGBA and back gives its hue to within `HUE_SECTOR / c + 1` units, going
/// either way round the wheel: the error grows as chroma shrinks, and a grey
/// (chroma 0) has no hue to keep.
pub proof fn lemma_hsva_round_trip_hue(c: Color)
    requires
        c.wf(),
        c is Hsva,
        chroma_of(c->saturation as int, c->value as int) > 0,
    ensures
        hue_near(
            c.rgba_of().hsva_of()->hue as int,
            c->hue as int,
            chroma_of(c->saturation as int, c->value as int),
        ),
{
    let (h, s, v) = (c->hue as int, c->saturation as int, c->value as int);
    let sector = HUE_SECTOR as int;
    lemma_scaled_down(v, s, 0, 0);
    let ch = chroma_of(s, v);
    lemma_mod_pos_bound(h, 2 * sector);
    let off = h % (2 * sector) - sector;
    let dist = if off >= 0 { off } else { -off };
    let k = sector - dist;
    lemma_middle_facts(ch, k);
    let x = middle_of(h, ch);
    let m = v - ch;
    lemma_conversions_wf(c);
    lemma_conversions_wf(c.rgba_of());
    let t = rgb_of(h, s, v);
    let h2 = hue_of(t.0, t.1, t.2);
    if h < sector {
        lemma_on_wheel(h, 0);
        lemma_hue_floor(x + m, m, ch, 0);
        lemma_floor_err(h2, x, k, ch);
        assert(hue_near(h2, h, ch));
    } else if h < 2 * sector {
        lemma_on_wheel(h, 1);
        if x == ch {
            lemma_full_middle(x, k, ch);
            lemma_hue_floor(ch + m, m, ch, 0);
            lemma_hue_near_itself(h, ch);
            assert(hue_near(h2, h, ch));
        } else if x == 0 {
            lemma_hue_floor(m, m, ch, 2 * sector);
            lemma_floor_err(h2 - 2 * sector, x, k, ch);
            assert(hue_near(h2, h, ch));
        } else {
            lemma_hue_ceil(m, x + m, ch, 2 * sector);
            lemma_ceil_err(2 * sector - h2, x, k, ch);
            assert(hue_near(h2, h, ch));
        }
    } else if h < 3 * sector {
        lemma_on_wheel(h, 2);
        lemma_hue_floor(x + m, m, ch, 2 * sector);
        lemma_floor_err(h2 - 2 * sector, x, k, ch);
        assert(hue_near(h2, h, ch));
    } else if h < 4 * sector {
        lemma_on_wheel(h, 3);
        if x == ch {
            lemma_full_middle(x, k, ch);
            lemma_hue_floor(ch + m, m, ch, 2 * sector);
            lemma_hue_near_itself(h, ch);
            assert(hue_near(h2, h, ch));
        } else if x == 0 {
            lemma_hue_floor(m, m, ch, 4 * sector);
            lemma_floor_err(h2 - 4 * sector, x, k, ch);
            assert(hue_near(h2, h, ch));
        } else {
            lemma_hue_ceil(m, x + m, ch, 4 * sector);
            lemma_ceil_err(4 * sector - h2, x, k, ch);
            assert(hue_near(h2, h, ch));
        }
    } else if h < 5 * sector {
        lemma_on_wheel(h, 4);
        lemma_hue_floor(x + m, m, ch, 4 * sector);
        lemma_floor_err(h2 - 4 * sector, x, k, ch);
        assert(hue_near(h2, h, ch));
    } else {
        lemma_on_wheel(h, 5);
        if x == 0 {
            lemma_hue_floor(m, m, ch, 0);
            lemma_floor_err(h2, x, k, ch);
            assert(hue_near(h2, h, ch));
        } else {
            lemma_hue_ceil(m, x + m, ch, 6 * sector);
            lemma_ceil_err(6 * sector - h2, x, k, ch);
            assert(hue_near(h2, h, ch));
        }
    }
}

/// Two RGB triples that agree to within two units per channel have
/// saturations that differ by at most `6 * ONE / hi + 1` units, with `hi` the
/// largest channel of the first.
pub proof fn lemma_saturation_stable(
    r1: int, g1: int, b1: int, r2: int, g2: int, b2: int,
)
    requires
        0 <= r1 <= ONE,
        0 <= g1 <= ONE,
        0 <= b1 <= ONE,
        0 <= r2 <= ONE,
        0 <= g2 <= ONE,
        0 <= b2 <= ONE,
        within_two(r1, r2),
        within_two(g1, g2),
        within_two(b1, b2),
    ensures
        ({
            let e = saturation_of(r1, g1, b1) - saturation_of(r2, g2, b2);
            (e - 1) * max3(r1, g1, b1) <= 6 * ONE && (-e - 1) * max3(r1, g1, b1) <= 6 * ONE
        }),
{
    let one = ONE as int;
    let (h1, h2) = (max3(r1, g1, b1), max3(r2, g2, b2));
    let (d1, d2) = (h1 - min3(r1, g1, b1), h2 - min3(r2, g2, b2));
    let (s1, s2) = (saturation_of(r1, g1, b1), saturation_of(r2, g2, b2));
    assert(-2 <= h1 - h2 <= 2 && -4 <= d1 - d2 <= 4);
    if h1 == 0 {
        assert((s1 - s2 - 1) * h1 == 0 && (s2 - s1 - 1) * h1 == 0) by (nonlinear_arith)
            requires
                h1 == 0,
        ;
    } else if h2 == 0 {
        assert(s2 == 0 && d1 <= 2 && h1 <= 2);
        lemma_div_facts(one * d1, h1);
        let r = (one * d1) % h1;
        assert(0 <= s1 <= one) by (nonlinear_arith)
            requires
                one * d1 == h1 * s1 + r,
                0 <= r < h1,
                0 <= d1 <= h1,
                one > 0,
        ;
        assert((s1 - 1) * h1 <= 6 * one && (-s1 - 1) * h1 <= 6 * one) by (nonlinear_arith)
            requires
                0 <= s1 <= one,
                0 < h1 <= 2,
        ;
    } else {
        lemma_div_facts(one * d1, h1);
        lemma_div_facts(one * d2, h2);
        let ra = (one * d1) % h1;
        let rb = (one * d2) % h2;
        let x = d1 * h2 - d2 * h1;
        assert(-6 * h2 <= x <= 6 * h2) by (nonlinear_arith)
            requires
                x == d1 * h2 - d2 * h1,
                -2 <= h1 - h2 <= 2,
                -4 <= d1 - d2 <= 4,
                0 <= d2 <= h2,
        ;
        assert((s1 - s2) * h1 * h2 <= one * x + h1 * h2 && (s2 - s1) * h1 * h2 <= -one * x
            + h1 * h2) by (nonlinear_arith)
            requires
                one * d1 == h1 * s1 + ra,
                0 <= ra < h1,
                one * d2 == h2 * s2 + rb,
                0 <= rb < h2,
                x == d1 * h2 - d2 * h1,
                h1 > 0,
                h2 > 0,
        ;
        assert((s1 - s2 - 1) * h1 <= 6 * one && (s2 - s1 - 1) * h1 <= 6 * one) by (nonlinear_arith)
            requires
                (s1 - s2) * h1 * h2 <= one * x + h1 * h2,
                (s2 - s1) * h1 * h2 <= -one * x + h1 * h2,
                -6 * h2 <= x <= 6 * h2,
                h1 > 0,
                h2 > 0,
                one > 0,
        ;
    }
}

} // verus!
