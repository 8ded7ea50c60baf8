//! What holds across conversions and mutations, stated over the spec
//! functions that the operations' own contracts use.
use vstd::prelude::*;
use crate::color::{
    chroma_of, lemma_conversions_wf, lemma_ratio_in_unit, max3, min3, saturation_of, unit_of, Color,
    HUE_TURN, ONE,
};
use crate::round_trip::{
    hue_near, lemma_hsva_round_trip, lemma_hsva_round_trip_hue, lemma_rgba_round_trip,
    lemma_saturation_stable,
};

verus! {

/// Alpha is never recomputed: both conversions and every setter but `set_a`
/// keep it exactly, and `set_a` stores its (clamped) argument.
pub proof fn lemma_alpha_preserved(c: Color, x: u64)
    ensures
        c.hsva_of().alpha_of() == c.alpha_of(),
        c.rgba_of().alpha_of() == c.alpha_of(),
        c.with_red(x).alpha_of() == c.alpha_of(),
        c.with_green(x).alpha_of() == c.alpha_of(),
        c.with_blue(x).alpha_of() == c.alpha_of(),
        c.with_hue(x).alpha_of() == c.alpha_of(),
        c.with_saturation(x).alpha_of() == c.alpha_of(),
        c.with_value(x).alpha_of() == c.alpha_of(),
        c.with_alpha(x).alpha_of() == unit_of(x as int),
{
}

/// Two fixed-point values that differ by at most `n` units.
pub open spec fn within(a: int, b: int, n: int) -> bool {
    -n <= a - b <= n
}

/// The RGBA conversions of two colours agree to within `n` units per
/// channel, and exactly in alpha.
pub open spec fn rgb_within(p: Color, q: Color, n: int) -> bool {
    &&& within(p.rgba_of()->red as int, q.rgba_of()->red as int, n)
    &&& within(p.rgba_of()->green as int, q.rgba_of()->green as int, n)
    &&& within(p.rgba_of()->blue as int, q.rgba_of()->blue as int, n)
    &&& p.alpha_of() == q.alpha_of()
}

/// The saturations of two colours differ by at most `6 * ONE / value + 1`
/// units, `value` being that of `p`.
pub open spec fn saturation_near(p: Color, q: Color) -> bool {
    let e = p.hsva_of()->saturation - q.hsva_of()->saturation;
    let hi = p.hsva_of()->value as int;
    (e - 1) * hi <= 6 * ONE && (-e - 1) * hi <= 6 * ONE
}

/// `p`, a colour in RGBA shape, and `q`, one in HSVA shape, read the same
/// RGB channels; `p` reads the value of `q` exactly, a saturation short of
/// `q`'s by less than `ONE / value + 1` units, and, where `q` has positive
/// chroma, a hue within `HUE_SECTOR / chroma + 1` units of `q`'s.
pub open spec fn hsv_after_round_trip(p: Color, q: Color) -> bool {
    let ch = chroma_of(q->saturation as int, q->value as int);
    &&& p == q.rgba_of()
    &&& p.hsva_of()->value == q->value
    &&& p.hsva_of()->saturation <= q->saturation
    &&& (q->saturation - p.hsva_of()->saturation - 1) * q->value < ONE
    &&& ch > 0 ==> hue_near(p.hsva_of()->hue as int, q->hue as int, ch)
}

/// Let `v` be an RGBA colour and `w = v.as_hsva()` its HSVA counterpart, and
/// apply the same HSV setter to both. Then `v` (converted back to RGBA) holds
/// exactly the RGBA conversion of `w`, so the two read the same red, green,
/// blue and alpha; `v` reads the same value as `w`, a saturation short by
/// less than `ONE / value + 1` units, and a hue within
/// `HUE_SECTOR / chroma + 1` units: losses that grow as the colour darkens
/// or greys.
pub proof fn lemma_cross_model_hsv_setters(v: Color, x: u64)
    requires
        v.wf(),
        v is Rgba,
    ensures
        hsv_after_round_trip(v.with_hue(x), v.hsva_of().with_hue(x)),
        hsv_after_round_trip(v.with_saturation(x), v.hsva_of().with_saturation(x)),
        hsv_after_round_trip(v.with_value(x), v.hsva_of().with_value(x)),
{
    let w = v.hsva_of();
    lemma_conversions_wf(v);
    vstd::arithmetic::div_mod::lemma_mod_pos_bound(x as int, HUE_TURN as int);
    lemma_hsva_round_trip(w.hue_put(x));
    if chroma_of(w.hue_put(x)->saturation as int, w.hue_put(x)->value as int) > 0 {
        lemma_hsva_round_trip_hue(w.hue_put(x));
    }
    lemma_hsva_round_trip(w.saturation_put(x));
    if chroma_of(w.saturation_put(x)->saturation as int, w.saturation_put(x)->value as int) > 0 {
        lemma_hsva_round_trip_hue(w.saturation_put(x));
    }
    lemma_hsva_round_trip(w.value_put(x));
    if chroma_of(w.value_put(x)->saturation as int, w.value_put(x)->value as int) > 0 {
        lemma_hsva_round_trip_hue(w.value_put(x));
    }
}

/// Let `v` be an RGBA colour and `w = v.as_hsva()` its HSVA counterpart, and
/// apply the same RGB setter to both. `w` went through an HSVA round trip
/// that `v` did not: the two read red, green and blue to within four units,
/// the same alpha, values that differ by at most two units, and saturations
/// that differ by at most `6 * ONE / value + 1` units, a bound that grows as
/// the colour darkens.
pub proof fn lemma_cross_model_rgb_setters(v: Color, x: u64)
    requires
        v.wf(),
        v is Rgba,
    ensures
        rgb_within(v.with_red(x), v.hsva_of().with_red(x), 4),
        rgb_within(v.with_green(x), v.hsva_of().with_green(x), 4),
        rgb_within(v.with_blue(x), v.hsva_of().with_blue(x), 4),
        within(v.with_red(x).hsva_of()->value as int, v.hsva_of().with_red(x)->value as int, 2),
        within(v.with_green(x).hsva_of()->value as int, v.hsva_of().with_green(x)->value as int, 2),
        within(v.with_blue(x).hsva_of()->value as int, v.hsva_of().with_blue(x)->value as int, 2),
        saturation_near(v.with_blue(x), v.hsva_of().with_blue(x)),
{
    lemma_cross_model_red(v, x);
    lemma_cross_model_green(v, x);
    lemma_cross_model_blue(v, x);
}

/// Two RGBA colours within two units per channel have nearby saturations.
proof fn lemma_saturation_near_rgb(p: Color, q: Color)
    requires
        p.wf(),
        q.wf(),
        p is Rgba,
        q is Rgba,
        within(p->red as int, q->red as int, 2),
        within(p->green as int, q->green as int, 2),
        within(p->blue as int, q->blue as int, 2),
    ensures
        saturation_near(p, q.hsva_of()),
{
    lemma_conversions_wf(p);
    lemma_conversions_wf(q);
    lemma_saturation_stable(
        p->red as int,
        p->green as int,
        p->blue as int,
        q->red as int,
        q->green as int,
        q->blue as int,
    );
    let (pr, pg, pb) = (p->red as int, p->green as int, p->blue as int);
    let (qr, qg, qb) = (q->red as int, q->green as int, q->blue as int);
    let (hp, hq) = (max3(pr, pg, pb), max3(qr, qg, qb));
    if hp > 0 {
        lemma_ratio_in_unit(hp - min3(pr, pg, pb), hp);
    }
    if hq > 0 {
        lemma_ratio_in_unit(hq - min3(qr, qg, qb), hq);
    }
    let (hp, hq) = (max3(pr, pg, pb), max3(qr, qg, qb));
    if hp > 0 {
        lemma_ratio_in_unit(hp - min3(pr, pg, pb), hp);
    }
    if hq > 0 {
        lemma_ratio_in_unit(hq - min3(qr, qg, qb), hq);
    }
    let e = p.hsva_of()->saturation - q.hsva_of()->saturation;
    let hi = p.hsva_of()->value as int;
    assert(e == saturation_of(pr, pg, pb) - saturation_of(qr, qg, qb));
    assert(hi == max3(pr, pg, pb));
}

/// One RGB setter of `lemma_cross_model_rgb_setters`.
proof fn lemma_cross_model_red(v: Color, x: u64)
    requires
        v.wf(),
        v is Rgba,
    ensures
        rgb_within(v.with_red(x), v.hsva_of().with_red(x), 4),
        within(v.with_red(x).hsva_of()->value as int, v.hsva_of().with_red(x)->value as int, 2),
        saturation_near(v.with_red(x), v.hsva_of().with_red(x)),
{
    let back = v.hsva_of().rgba_of();
    lemma_conversions_wf(v);
    lemma_conversions_wf(v.hsva_of());
    lemma_rgba_round_trip(v);
    lemma_conversions_wf(back.red_put(x));
    lemma_rgba_round_trip(back.red_put(x));
    lemma_saturation_near_rgb(v.red_put(x), back.red_put(x));
}

/// One RGB setter of `lemma_cross_model_rgb_setters`.
proof fn lemma_cross_model_green(v: Color, x: u64)
    requires
        v.wf(),
        v is Rgba,
    ensures
        rgb_within(v.with_green(x), v.hsva_of().with_green(x), 4),
        within(v.with_green(x).hsva_of()->value as int, v.hsva_of().with_green(x)->value as int, 2),
        saturation_near(v.with_green(x), v.hsva_of().with_green(x)),
{
    let back = v.hsva_of().rgba_of();
    lemma_conversions_wf(v);
    lemma_conversions_wf(v.hsva_of());
    lemma_rgba_round_trip(v);
    lemma_conversions_wf(back.green_put(x));
    lemma_rgba_round_trip(back.green_put(x));
    lemma_saturation_near_rgb(v.green_put(x), back.green_put(x));
}

/// One RGB setter of `lemma_cross_model_rgb_setters`.
proof fn lemma_cross_model_blue(v: Color, x: u64)
    requires
        v.wf(),
        v is Rgba,
    ensures
        rgb_within(v.with_blue(x), v.hsva_of().with_blue(x), 4),
        within(v.with_blue(x).hsva_of()->value as int, v.hsva_of().with_blue(x)->value as int, 2),
        saturation_near(v.with_blue(x), v.hsva_of().with_blue(x)),
{
    let back = v.hsva_of().rgba_of();
    lemma_conversions_wf(v);
    lemma_conversions_wf(v.hsva_of());
    lemma_rgba_round_trip(v);
    lemma_conversions_wf(back.blue_put(x));
    lemma_rgba_round_trip(back.blue_put(x));
    lemma_saturation_near_rgb(v.blue_put(x), back.blue_put(x));
}

/// `set_a` needs no conversion: on `v` and on `w = v.as_hsva()` it leaves
/// colours that convert to each other.
pub proof fn lemma_cross_model_alpha(v: Color, x: u64)
    requires
        v is Rgba,
    ensures
        v.with_alpha(x).hsva_of() == v.hsva_of().with_alpha(x),
{
}

/// Setting a channel of the colour's own model twice to the same value
/// changes nothing after the first time; `set_a` likewise in either shape.
pub proof fn lemma_same_model_setters_idempotent(c: Color, x: u64)
    ensures
        c is Rgba ==> c.with_red(x).with_red(x) == c.with_red(x),
        c is Rgba ==> c.with_green(x).with_green(x) == c.with_green(x),
        c is Rgba ==> c.with_blue(x).with_blue(x) == c.with_blue(x),
        c is Hsva ==> c.with_hue(x).with_hue(x) == c.with_hue(x),
        c is Hsva ==> c.with_saturation(x).with_saturation(x) == c.with_saturation(x),
        c is Hsva ==> c.with_value(x).with_value(x) == c.with_value(x),
        c.with_alpha(x).with_alpha(x) == c.with_alpha(x),
{
}

} // verus!
