use vstd::prelude::*;

verus! {

/// The fixed-point value of 1.0 for a channel, and of one degree for a hue.
pub const ONE: u64 = 4294967296;

/// Sixty degrees of hue: the width of one sector of the colour wheel.
pub const HUE_SECTOR: u64 = 257698037760;

/// A full turn of the colour wheel (360 degrees); every stored hue is below it.
pub const HUE_TURN: u64 = 1546188226560;

/// A colour, stored in exactly one of two shapes.
///
/// Channels, saturation, value and alpha lie in `0..=ONE`; a hue lies in
/// `0..HUE_TURN`. The constructors and setters clamp channel inputs to `ONE`
/// and wrap hue inputs around the colour wheel, so every value they build
/// satisfies `wf`.
#[derive(Clone, Copy, Debug, PartialEq, Eq, Structural)]
pub enum Color {
    Rgba { red: u64, green: u64, blue: u64, alpha: u64 },
    Hsva { hue: u64, saturation: u64, value: u64, alpha: u64 },
}

/// A channel input limited to the unit range.
pub open spec fn unit_of(x: int) -> int {
    if x > ONE { ONE as int } else { x }
}

/// A hue input wrapped onto the colour wheel.
pub open spec fn wheel_of(h: int) -> int {
    h % (HUE_TURN as int)
}

/// The largest of three values.
pub open spec fn max3(a: int, b: int, c: int) -> int {
    if a >= b && a >= c { a } else if b >= c { b } else { c }
}

/// The smallest of three values.
pub open spec fn min3(a: int, b: int, c: int) -> int {
    if a <= b && a <= c { a } else if b <= c { b } else { c }
}

/// The hue of an RGB triple, rounded down to a whole unit.
///
/// With `hi`, `lo` the largest and smallest channel and `d = hi - lo`, the
/// hue in degrees is `60 * ((g - b) / d mod 6)` when red is largest,
/// `60 * ((b - r) / d + 2)` when green is, and `60 * ((r - g) / d + 4)`
/// otherwise; a grey (`d == 0`) has hue 0. Each case is written over the
/// common denominator `d`.
pub open spec fn hue_of(r: int, g: int, b: int) -> int {
    let hi = max3(r, g, b);
    let d = hi - min3(r, g, b);
    let sector = HUE_SECTOR as int;
    if d == 0 {
        0
    } else if hi == r {
        if g >= b {
            (sector * (g - b)) / d
        } else {
            (sector * (g - b) + 6 * sector * d) / d
        }
    } else if hi == g {
        (sector * (b - r) + 2 * sector * d) / d
    } else {
        (sector * (r - g) + 4 * sector * d) / d
    }
}

/// The saturation of an RGB triple, `(hi - lo) / hi`, rounded down; 0 for black.
pub open spec fn saturation_of(r: int, g: int, b: int) -> int {
    let hi = max3(r, g, b);
    if hi == 0 {
        0
    } else {
        (ONE * (hi - min3(r, g, b))) / hi
    }
}

/// The chroma `value * saturation`, rounded down.
pub open spec fn chroma_of(s: int, v: int) -> int {
    (v * s) / (ONE as int)
}

/// The middle component `c * (1 - |(h / 60 mod 2) - 1|)`, rounded down.
pub open spec fn middle_of(h: int, c: int) -> int {
    let sector = HUE_SECTOR as int;
    let off = h % (2 * sector) - sector;
    let dist = if off >= 0 { off } else { -off };
    (c * (sector - dist)) / sector
}

/// The RGB triple of an HSV triple (`h` below `HUE_TURN`), chosen by sector.
pub open spec fn rgb_of(h: int, s: int, v: int) -> (int, int, int) {
    let c = chroma_of(s, v);
    let x = middle_of(h, c);
    let m = v - c;
    let sector = h / (HUE_SECTOR as int);
    if sector == 0 {
        (c + m, x + m, m)
    } else if sector == 1 {
        (x + m, c + m, m)
    } else if sector == 2 {
        (m, c + m, x + m)
    } else if sector == 3 {
        (m, x + m, c + m)
    } else if sector == 4 {
        (x + m, m, c + m)
    } else {
        (c + m, m, x + m)
    }
}

impl Color {
    /// The ranges that every colour built by this library keeps.
    pub open spec fn wf(self) -> bool {
        match self {
            Color::Rgba { red, green, blue, alpha } => red <= ONE && green <= ONE && blue <= ONE
                && alpha <= ONE,
            Color::Hsva { hue, saturation, value, alpha } => hue < HUE_TURN && saturation <= ONE
                && value <= ONE && alpha <= ONE,
        }
    }

    /// The alpha channel, held the same way in both shapes.
    pub open spec fn alpha_of(self) -> u64 {
        match self {
            Color::Rgba { alpha, .. } => alpha,
            Color::Hsva { alpha, .. } => alpha,
        }
    }

    /// An RGBA colour with its red channel set (an HSVA colour is left as is).
    pub open spec fn red_put(self, x: u64) -> Color {
        match self {
            Color::Rgba { green, blue, alpha, .. } => Color::Rgba {
                red: unit_of(x as int) as u64,
                green,
                blue,
                alpha,
            },
            Color::Hsva { .. } => self,
        }
    }

    /// An RGBA colour with its green channel set (an HSVA colour is left as is).
    pub open spec fn green_put(self, x: u64) -> Color {
        match self {
            Color::Rgba { red, blue, alpha, .. } => Color::Rgba {
                red,
                green: unit_of(x as int) as u64,
                blue,
                alpha,
            },
            Color::Hsva { .. } => self,
        }
    }

    /// An RGBA colour with its blue channel set (an HSVA colour is left as is).
    pub open spec fn blue_put(self, x: u64) -> Color {
        match self {
            Color::Rgba { red, green, alpha, .. } => Color::Rgba {
                red,
                green,
                blue: unit_of(x as int) as u64,
                alpha,
            },
            Color::Hsva { .. } => self,
        }
    }

    /// An HSVA colour with its hue set (an RGBA colour is left as is).
    pub open spec fn hue_put(self, x: u64) -> Color {
        match self {
            Color::Hsva { saturation, value, alpha, .. } => Color::Hsva {
                hue: wheel_of(x as int) as u64,
                saturation,
                value,
                alpha,
            },
            Color::Rgba { .. } => self,
        }
    }

    /// An HSVA colour with its saturation set (an RGBA colour is left as is).
    pub open spec fn saturation_put(self, x: u64) -> Color {
        match self {
            Color::Hsva { hue, value, alpha, .. } => Color::Hsva {
                hue,
                saturation: unit_of(x as int) as u64,
                value,
                alpha,
            },
            Color::Rgba { .. } => self,
        }
    }

    /// An HSVA colour with its value set (an RGBA colour is left as is).
    pub open spec fn value_put(self, x: u64) -> Color {
        match self {
            Color::Hsva { hue, saturation, alpha, .. } => Color::Hsva {
                hue,
                saturation,
                value: unit_of(x as int) as u64,
                alpha,
            },
            Color::Rgba { .. } => self,
        }
    }

    /// The colour after `set_r(x)`: set directly in RGBA shape; in HSVA shape,
    /// set on the RGBA conversion and converted back, so the shape stays.
    pub open spec fn with_red(self, x: u64) -> Color {
        match self {
            Color::Rgba { .. } => self.red_put(x),
            Color::Hsva { .. } => self.rgba_of().red_put(x).hsva_of(),
        }
    }

    /// The colour after `set_g(x)`, in the manner of `with_red`.
    pub open spec fn with_green(self, x: u64) -> Color {
        match self {
            Color::Rgba { .. } => self.green_put(x),
            Color::Hsva { .. } => self.rgba_of().green_put(x).hsva_of(),
        }
    }

    /// The colour after `set_b(x)`, in the manner of `with_red`.
    pub open spec fn with_blue(self, x: u64) -> Color {
        match self {
            Color::Rgba { .. } => self.blue_put(x),
            Color::Hsva { .. } => self.rgba_of().blue_put(x).hsva_of(),
        }
    }

    /// The colour after `set_h(x)`: set directly in HSVA shape; in RGBA shape,
    /// set on the HSVA conversion and converted back, so the shape stays.
    pub open spec fn with_hue(self, x: u64) -> Color {
        match self {
            Color::Hsva { .. } => self.hue_put(x),
            Color::Rgba { .. } => self.hsva_of().hue_put(x).rgba_of(),
        }
    }

    /// The colour after `set_s(x)`, in the manner of `with_hue`.
    pub open spec fn with_saturation(self, x: u64) -> Color {
        match self {
            Color::Hsva { .. } => self.saturation_put(x),
            Color::Rgba { .. } => self.hsva_of().saturation_put(x).rgba_of(),
        }
    }

    /// The colour after `set_v(x)`, in the manner of `with_hue`.
    pub open spec fn with_value(self, x: u64) -> Color {
        match self {
            Color::Hsva { .. } => self.value_put(x),
            Color::Rgba { .. } => self.hsva_of().value_put(x).rgba_of(),
        }
    }

    /// The colour after `set_a(x)`: alpha set in either shape, nothing else moves.
    pub open spec fn with_alpha(self, x: u64) -> Color {
        let a = unit_of(x as int) as u64;
        match self {
            Color::Rgba { red, green, blue, .. } => Color::Rgba { red, green, blue, alpha: a },
            Color::Hsva { hue, saturation, value, .. } => Color::Hsva {
                hue,
                saturation,
                value,
                alpha: a,
            },
        }
    }

    /// The colour in HSVA shape: converted from RGBA, unchanged if already HSVA.
    pub open spec fn hsva_of(self) -> Color {
        match self {
            Color::Rgba { red, green, blue, alpha } => Color::Hsva {
                hue: hue_of(red as int, green as int, blue as int) as u64,
                saturation: saturation_of(red as int, green as int, blue as int) as u64,
                value: max3(red as int, green as int, blue as int) as u64,
                alpha,
            },
            Color::Hsva { .. } => self,
        }
    }

    /// The colour in RGBA shape: converted from HSVA, unchanged if already RGBA.
    pub open spec fn rgba_of(self) -> Color {
        match self {
            Color::Hsva { hue, saturation, value, alpha } => {
                let t = rgb_of(hue as int, saturation as int, value as int);
                Color::Rgba { red: t.0 as u64, green: t.1 as u64, blue: t.2 as u64, alpha }
            },
            Color::Rgba { .. } => self,
        }
    }
}

/// The largest of three channels.
fn max_of(a: u64, b: u64, c: u64) -> (r: u64)
    ensures
        r == max3(a as int, b as int, c as int),
{
    if a >= b && a >= c {
        a
    } else if b >= c {
        b
    } else {
        c
    }
}

/// The smallest of three channels.
fn min_of(a: u64, b: u64, c: u64) -> (r: u64)
    ensures
        r == min3(a as int, b as int, c as int),
{
    if a <= b && a <= c {
        a
    } else if b <= c {
        b
    } else {
        c
    }
}

/// A numerator over a positive denominator, below `bound` times it, gives a
/// quotient below `bound`.
proof fn lemma_quotient_below(n: int, d: int, bound: int)
    requires
        0 <= n < bound * d,
        d > 0,
    ensures
        0 <= n / d < bound,
{
    assert(0 <= n / d < bound) by (nonlinear_arith)
        requires
            0 <= n < bound * d,
            d > 0,
    {
        vstd::arithmetic::div_mod::lemma_fundamental_div_mod(n, d);
    }
}

/// The numerator `60 * (p - q) + 60 * k * d` of a hue, in hue units: its
/// rearrangement for unsigned arithmetic, its sign and its size.
proof fn lemma_hue_numerator(k: int, p: int, q: int, d: int)
    requires
        k == 0 || k == 2 || k == 4 || k == 6,
        0 <= p <= ONE,
        0 <= q <= ONE,
        0 < d <= ONE,
        q - p <= k * d,
        p - q <= d,
        k == 6 ==> p < q,
    ensures
        0 <= (HUE_SECTOR * (p - q) + k * HUE_SECTOR * d) / d < HUE_TURN,
        HUE_SECTOR * (p - q) + k * HUE_SECTOR * d == k * HUE_SECTOR * d + HUE_SECTOR * p
            - HUE_SECTOR * q,
        k * HUE_SECTOR <= 6 * HUE_SECTOR,
        k * HUE_SECTOR * d <= 6 * HUE_SECTOR * ONE,
        HUE_SECTOR * p <= HUE_SECTOR * ONE,
        HUE_SECTOR * q <= k * HUE_SECTOR * d + HUE_SECTOR * p,
{
    let s = HUE_SECTOR as int;
    assert(s * (p - q) + k * s * d == k * s * d + s * p - s * q
        && k * s <= 6 * s && k * s * d <= 6 * s * ONE && s * p <= s * ONE
        && s * q <= k * s * d + s * p) by (nonlinear_arith)
        requires
            s == HUE_SECTOR,
            0 <= k <= 6,
            0 <= p <= ONE,
            0 <= q <= ONE,
            0 < d <= ONE,
            q - p <= k * d,
            p - q <= d,
            k == 6 ==> p < q,
    ;
    assert((p - q) + k * d < 6 * d) by (nonlinear_arith)
        requires
            k == 0 || k == 2 || k == 4 || k == 6,
            0 < d,
            p - q <= d,
            k == 6 ==> p < q,
    ;
    assert(s * (p - q) + k * s * d < 6 * s * d) by (nonlinear_arith)
        requires
            s > 0,
            (p - q) + k * d < 6 * d,
    ;
    lemma_quotient_below(s * (p - q) + k * s * d, d, 6 * s);
}

/// `60 * (p - q) + 60 * k * d`, in hue units.
fn hue_numerator(k: u128, p: u128, q: u128, d: u128) -> (n: u128)
    requires
        k == 0 || k == 2 || k == 4 || k == 6,
        p <= ONE,
        q <= ONE,
        0 < d <= ONE,
        q - p <= k * d,
        p - q <= d,
        k == 6 ==> p < q,
    ensures
        n == HUE_SECTOR * (p - q) + k * HUE_SECTOR * d,
        n / d < HUE_TURN,
{
    proof {
        lemma_hue_numerator(k as int, p as int, q as int, d as int);
    }
    let sector = HUE_SECTOR as u128;
    k * sector * d + sector * p - sector * q
}

/// `ONE * d / hi` lies in the unit range when `d <= hi`.
pub(crate) proof fn lemma_ratio_in_unit(d: int, hi: int)
    requires
        0 <= d <= hi <= ONE,
        hi > 0,
    ensures
        ONE * d <= ONE * ONE,
        0 <= (ONE * d) / hi <= ONE,
{
    let one = ONE as int;
    assert(one * d <= one * one && one * d < (one + 1) * hi) by (nonlinear_arith)
        requires
            one == ONE,
            0 <= d <= hi <= one,
            hi > 0,
    ;
    lemma_quotient_below(one * d, hi, one + 1);
}

impl Color {
    /// The colour in HSVA shape.
    pub fn as_hsva(&self) -> (res: Color)
        requires
            self.wf(),
        ensures
            res == self.hsva_of(),
            res.wf(),
    {
        match *self {
            Color::Rgba { red, green, blue, alpha } => {
                let hi = max_of(red, green, blue);
                let lo = min_of(red, green, blue);
                let d = (hi - lo) as u128;
                let (r, g, b) = (red as u128, green as u128, blue as u128);
                let hue: u128 = if d == 0 {
                    0
                } else if hi == red {
                    if g >= b {
                        hue_numerator(0, g, b, d) / d
                    } else {
                        hue_numerator(6, g, b, d) / d
                    }
                } else if hi == green {
                    hue_numerator(2, b, r, d) / d
                } else {
                    hue_numerator(4, r, g, d) / d
                };
                let saturation: u128 = if hi == 0 {
                    0
                } else {
                    proof {
                        lemma_ratio_in_unit(d as int, hi as int);
                    }
                    (ONE as u128 * d) / hi as u128
                };
                Color::Hsva { hue: hue as u64, saturation: saturation as u64, value: hi, alpha }
            },
            Color::Hsva { .. } => *self,
        }
    }
}

/// `v * s / ONE` is at most `v`, and `c * k / HUE_SECTOR` at most `c`, for
/// factors in the unit range.
pub(crate) proof fn lemma_scaled_down(v: int, s: int, c: int, k: int)
    requires
        0 <= v <= ONE,
        0 <= s <= ONE,
        0 <= c <= ONE,
        0 <= k <= HUE_SECTOR,
    ensures
        v * s <= ONE * ONE,
        0 <= (v * s) / (ONE as int) <= v,
        c * k <= ONE * HUE_SECTOR,
        0 <= (c * k) / (HUE_SECTOR as int) <= c,
{
    let one = ONE as int;
    let sector = HUE_SECTOR as int;
    assert(v * s <= one * one && v * s < (v + 1) * one) by (nonlinear_arith)
        requires
            one == ONE,
            0 <= v <= one,
            0 <= s <= one,
    ;
    lemma_quotient_below(v * s, one, v + 1);
    assert(c * k <= one * sector && c * k < (c + 1) * sector) by (nonlinear_arith)
        requires
            one == ONE,
            sector == HUE_SECTOR,
            0 <= c <= one,
            0 <= k <= sector,
    ;
    lemma_quotient_below(c * k, sector, c + 1);
}

/// Both conversions keep a colour within its ranges.
pub proof fn lemma_conversions_wf(c: Color)
    requires
        c.wf(),
    ensures
        c.hsva_of().wf(),
        c.rgba_of().wf(),
{
    match c {
        Color::Rgba { red, green, blue, .. } => {
            let (r, g, b) = (red as int, green as int, blue as int);
            let hi = max3(r, g, b);
            let d = hi - min3(r, g, b);
            if d > 0 {
                if hi == r && g >= b {
                    lemma_hue_numerator(0, g, b, d);
                } else if hi == r {
                    lemma_hue_numerator(6, g, b, d);
                } else if hi == g {
                    lemma_hue_numerator(2, b, r, d);
                } else {
                    lemma_hue_numerator(4, r, g, d);
                }
                lemma_ratio_in_unit(d, hi);
            }
        },
        Color::Hsva { hue, saturation, value, .. } => {
            let (h, s, v) = (hue as int, saturation as int, value as int);
            let sector = HUE_SECTOR as int;
            lemma_scaled_down(v, s, 0, 0);
            let ch = chroma_of(s, v);
            vstd::arithmetic::div_mod::lemma_mod_pos_bound(h, 2 * sector);
            let off = h % (2 * sector) - sector;
            let dist = if off >= 0 { off } else { -off };
            lemma_scaled_down(v, s, ch, sector - dist);
        },
    }
}

impl Color {
    /// The colour in RGBA shape.
    pub fn as_rgba(&self) -> (res: Color)
        requires
            self.wf(),
        ensures
            res == self.rgba_of(),
            res.wf(),
    {
        match *self {
            Color::Hsva { hue, saturation, value, alpha } => {
                let sector = HUE_SECTOR as u128;
                let off = hue as u128 % (2 * sector);
                let dist = if off >= sector {
                    off - sector
                } else {
                    sector - off
                };
                proof {
                    lemma_scaled_down(value as int, saturation as int, 0, 0);
                }
                let c = (value as u128 * saturation as u128) / ONE as u128;
                proof {
                    lemma_scaled_down(value as int, saturation as int, c as int, (sector - dist) as int);
                }
                let x = (c * (sector - dist)) / sector;
                let m = value as u128 - c;
                let (r, g, b) = match hue as u128 / sector {
                    0 => (c + m, x + m, m),
                    1 => (x + m, c + m, m),
                    2 => (m, c + m, x + m),
                    3 => (m, x + m, c + m),
                    4 => (x + m, m, c + m),
                    _ => (c + m, m, x + m),
                };
                Color::Rgba { red: r as u64, green: g as u64, blue: b as u64, alpha }
            },
            Color::Rgba { .. } => *self,
        }
    }
}

/// A channel input limited to `ONE`.
fn unit(x: u64) -> (r: u64)
    ensures
        r == unit_of(x as int),
{
    if x > ONE {
        ONE
    } else {
        x
    }
}

/// A hue input wrapped below `HUE_TURN`.
fn wheel(h: u64) -> (r: u64)
    ensures
        r == wheel_of(h as int),
        r < HUE_TURN,
{
    h % HUE_TURN
}

impl Color {
    /// An opaque colour from red, green and blue (each clamped to `ONE`).
    pub fn rgb(r: u64, g: u64, b: u64) -> (res: Color)
        ensures
            res == (Color::Rgba {
                red: unit_of(r as int) as u64,
                green: unit_of(g as int) as u64,
                blue: unit_of(b as int) as u64,
                alpha: ONE,
            }),
            res.wf(),
    {
        Color::Rgba { red: unit(r), green: unit(g), blue: unit(b), alpha: ONE }
    }

    /// A colour from red, green, blue and alpha (each clamped to `ONE`).
    pub fn rgba(r: u64, g: u64, b: u64, a: u64) -> (res: Color)
        ensures
            res == (Color::Rgba {
                red: unit_of(r as int) as u64,
                green: unit_of(g as int) as u64,
                blue: unit_of(b as int) as u64,
                alpha: unit_of(a as int) as u64,
            }),
            res.wf(),
    {
        Color::Rgba { red: unit(r), green: unit(g), blue: unit(b), alpha: unit(a) }
    }

    /// An opaque colour from hue (wrapped below `HUE_TURN`), saturation and
    /// value (each clamped to `ONE`).
    pub fn hsv(h: u64, s: u64, v: u64) -> (res: Color)
        ensures
            res == (Color::Hsva {
                hue: wheel_of(h as int) as u64,
                saturation: unit_of(s as int) as u64,
                value: unit_of(v as int) as u64,
                alpha: ONE,
            }),
            res.wf(),
    {
        Color::Hsva { hue: wheel(h), saturation: unit(s), value: unit(v), alpha: ONE }
    }

    /// A colour from hue (wrapped below `HUE_TURN`), saturation, value and
    /// alpha (each clamped to `ONE`).
    pub fn hsva(h: u64, s: u64, v: u64, a: u64) -> (res: Color)
        ensures
            res == (Color::Hsva {
                hue: wheel_of(h as int) as u64,
                saturation: unit_of(s as int) as u64,
                value: unit_of(v as int) as u64,
                alpha: unit_of(a as int) as u64,
            }),
            res.wf(),
    {
        Color::Hsva { hue: wheel(h), saturation: unit(s), value: unit(v), alpha: unit(a) }
    }

    /// The red channel of the colour's RGBA conversion.
    pub fn r(&self) -> (res: u64)
        requires
            self.wf(),
        ensures
            res == self.rgba_of()->red,
    {
        match self.as_rgba() {
            Color::Rgba { red, .. } => red,
            Color::Hsva { .. } => {
                proof {
                    assert(false);
                }
                0
            },
        }
    }

    /// The green channel of the colour's RGBA conversion.
    pub fn g(&self) -> (res: u64)
        requires
            self.wf(),
        ensures
            res == self.rgba_of()->green,
    {
        match self.as_rgba() {
            Color::Rgba { green, .. } => green,
            Color::Hsva { .. } => {
                proof {
                    assert(false);
                }
                0
            },
        }
    }

    /// The blue channel of the colour's RGBA conversion.
    pub fn b(&self) -> (res: u64)
        requires
            self.wf(),
        ensures
            res == self.rgba_of()->blue,
    {
        match self.as_rgba() {
            Color::Rgba { blue, .. } => blue,
            Color::Hsva { .. } => {
                proof {
                    assert(false);
                }
                0
            },
        }
    }

    /// The hue of the colour's HSVA conversion.
    pub fn h(&self) -> (res: u64)
        requires
            self.wf(),
        ensures
            res == self.hsva_of()->hue,
    {
        match self.as_hsva() {
            Color::Hsva { hue, .. } => hue,
            Color::Rgba { .. } => {
                proof {
                    assert(false);
                }
                0
            },
        }
    }

    /// The saturation of the colour's HSVA conversion.
    pub fn s(&self) -> (res: u64)
        requires
            self.wf(),
        ensures
            res == self.hsva_of()->saturation,
    {
        match self.as_hsva() {
            Color::Hsva { saturation, .. } => saturation,
            Color::Rgba { .. } => {
                proof {
                    assert(false);
                }
                0
            },
        }
    }

    /// The value of the colour's HSVA conversion.
    pub fn v(&self) -> (res: u64)
        requires
            self.wf(),
        ensures
            res == self.hsva_of()->value,
    {
        match self.as_hsva() {
            Color::Hsva { value, .. } => value,
            Color::Rgba { .. } => {
                proof {
                    assert(false);
                }
                0
            },
        }
    }

    /// The alpha channel, read in either shape without conversion.
    pub fn a(&self) -> (res: u64)
        ensures
            res == self.alpha_of(),
    {
        match *self {
            Color::Rgba { alpha, .. } => alpha,
            Color::Hsva { alpha, .. } => alpha,
        }
    }

}

/// Sets the red channel of an RGBA colour.
fn put_red(c: Color, x: u64) -> (res: Color)
    requires
        c.wf(),
    ensures
        res == c.red_put(x),
        res.wf(),
{
    match c {
        Color::Rgba { red: _, green, blue, alpha } => Color::Rgba { red: unit(x), green, blue, alpha },
        Color::Hsva { .. } => c,
    }
}

/// Sets the green channel of an RGBA colour.
fn put_green(c: Color, x: u64) -> (res: Color)
    requires
        c.wf(),
    ensures
        res == c.green_put(x),
        res.wf(),
{
    match c {
        Color::Rgba { red, green: _, blue, alpha } => Color::Rgba { red, green: unit(x), blue, alpha },
        Color::Hsva { .. } => c,
    }
}

/// Sets the blue channel of an RGBA colour.
fn put_blue(c: Color, x: u64) -> (res: Color)
    requires
        c.wf(),
    ensures
        res == c.blue_put(x),
        res.wf(),
{
    match c {
        Color::Rgba { red, green, blue: _, alpha } => Color::Rgba { red, green, blue: unit(x), alpha },
        Color::Hsva { .. } => c,
    }
}

/// Sets the hue field of an HSVA colour.
fn put_hue(c: Color, x: u64) -> (res: Color)
    requires
        c.wf(),
    ensures
        res == c.hue_put(x),
        res.wf(),
{
    match c {
        Color::Hsva { hue: _, saturation, value, alpha } => Color::Hsva { hue: wheel(x), saturation, value, alpha },
        Color::Rgba { .. } => c,
    }
}

/// Sets the saturation field of an HSVA colour.
fn put_saturation(c: Color, x: u64) -> (res: Color)
    requires
        c.wf(),
    ensures
        res == c.saturation_put(x),
        res.wf(),
{
    match c {
        Color::Hsva { hue, saturation: _, value, alpha } => Color::Hsva { hue, saturation: unit(x), value, alpha },
        Color::Rgba { .. } => c,
    }
}

/// Sets the value field of an HSVA colour.
fn put_value(c: Color, x: u64) -> (res: Color)
    requires
        c.wf(),
    ensures
        res == c.value_put(x),
        res.wf(),
{
    match c {
        Color::Hsva { hue, saturation, value: _, alpha } => Color::Hsva { hue, saturation, value: unit(x), alpha },
        Color::Rgba { .. } => c,
    }
}

impl Color {
    /// Sets the red channel. A colour in HSVA shape takes the change through its
    /// RGBA conversion and is converted back, so its shape is kept.
    pub fn set_r(&mut self, r: u64) -> (res: &mut Color)
        requires
            old(self).wf(),
        ensures
            *res == old(self).with_red(r),
            res.wf(),
            *final(self) == *final(res),
    {
        *self = match *self {
            Color::Rgba { .. } => put_red(*self, r),
            Color::Hsva { .. } => put_red(self.as_rgba(), r).as_hsva(),
        };
        self
    }

    /// Sets the green channel. A colour in HSVA shape takes the change through its
    /// RGBA conversion and is converted back, so its shape is kept.
    pub fn set_g(&mut self, g: u64) -> (res: &mut Color)
        requires
            old(self).wf(),
        ensures
            *res == old(self).with_green(g),
            res.wf(),
            *final(self) == *final(res),
    {
        *self = match *self {
            Color::Rgba { .. } => put_green(*self, g),
            Color::Hsva { .. } => put_green(self.as_rgba(), g).as_hsva(),
        };
        self
    }

    /// Sets the blue channel. A colour in HSVA shape takes the change through its
    /// RGBA conversion and is converted back, so its shape is kept.
    pub fn set_b(&mut self, b: u64) -> (res: &mut Color)
        requires
            old(self).wf(),
        ensures
            *res == old(self).with_blue(b),
            res.wf(),
            *final(self) == *final(res),
    {
        *self = match *self {
            Color::Rgba { .. } => put_blue(*self, b),
            Color::Hsva { .. } => put_blue(self.as_rgba(), b).as_hsva(),
        };
        self
    }

    /// Sets the hue. A colour in RGBA shape takes the change through its
    /// HSVA conversion and is converted back, so its shape is kept.
    pub fn set_h(&mut self, h: u64) -> (res: &mut Color)
        requires
            old(self).wf(),
        ensures
            *res == old(self).with_hue(h),
            res.wf(),
            *final(self) == *final(res),
    {
        *self = match *self {
            Color::Hsva { .. } => put_hue(*self, h),
            Color::Rgba { .. } => put_hue(self.as_hsva(), h).as_rgba(),
        };
        self
    }

    /// Sets the saturation. A colour in RGBA shape takes the change through its
    /// HSVA conversion and is converted back, so its shape is kept.
    pub fn set_s(&mut self, s: u64) -> (res: &mut Color)
        requires
            old(self).wf(),
        ensures
            *res == old(self).with_saturation(s),
            res.wf(),
            *final(self) == *final(res),
    {
        *self = match *self {
            Color::Hsva { .. } => put_saturation(*self, s),
            Color::Rgba { .. } => put_saturation(self.as_hsva(), s).as_rgba(),
        };
        self
    }

    /// Sets the value. A colour in RGBA shape takes the change through its
    /// HSVA conversion and is converted back, so its shape is kept.
    pub fn set_v(&mut self, v: u64) -> (res: &mut Color)
        requires
            old(self).wf(),
        ensures
            *res == old(self).with_value(v),
            res.wf(),
            *final(self) == *final(res),
    {
        *self = match *self {
            Color::Hsva { .. } => put_value(*self, v),
            Color::Rgba { .. } => put_value(self.as_hsva(), v).as_rgba(),
        };
        self
    }

    /// Sets alpha, in either shape, without conversion.
    pub fn set_a(&mut self, a: u64) -> (res: &mut Color)
        ensures
            *res == old(self).with_alpha(a),
            old(self).wf() ==> res.wf(),
            *final(self) == *final(res),
    {
        let x = unit(a);
        match self {
            Color::Rgba { alpha, .. } => *alpha = x,
            Color::Hsva { alpha, .. } => *alpha = x,
        }
        self
    }
}

} // verus!
