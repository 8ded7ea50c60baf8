use color_model::{Color, HUE_SECTOR, HUE_TURN, ONE};

/// A fixed-point channel or hue (in degrees) from a float.
fn fixed(x: f32) -> u64 {
    (x as f64 * ONE as f64) as u64
}

fn assert_colors_eq(a: &Color, b: &Color) {
    assert_eq!(a.r(), b.r());
    assert_eq!(a.g(), b.g());
    assert_eq!(a.b(), b.b());
    assert_eq!(a.h(), b.h());
    assert_eq!(a.s(), b.s());
    assert_eq!(a.v(), b.v());
    assert_eq!(a.a(), b.a());
}

#[test]
fn read_test() {
    let color_rgb = Color::rgb(fixed(1.0), fixed(0.5), fixed(0.25));
    let color_hsv = Color::hsv(fixed(20.0), fixed(0.75), fixed(1.0));

    assert_eq!(color_rgb.h(), fixed(20.0));
    assert_eq!(color_rgb.s(), fixed(0.75));
    assert_eq!(color_rgb.v(), fixed(1.0));

    assert_eq!(color_hsv.r(), fixed(1.0));
    assert_eq!(color_hsv.g(), fixed(0.5));
    assert_eq!(color_hsv.b(), fixed(0.25));
}

#[test]
fn conversion_test() {
    let color = Color::rgb(fixed(1.0), fixed(0.5), fixed(0.25));
    let color_hsv = color.as_hsva();

    assert_colors_eq(&color, &color_hsv);

    match color_hsv {
        Color::Hsva { hue, saturation, value, alpha } => {
            assert_eq!(hue, fixed(20.0));
            assert_eq!(saturation, fixed(0.75));
            assert_eq!(value, fixed(1.0));
            assert_eq!(alpha, fixed(1.0));
        }
        Color::Rgba { .. } => unreachable!(),
    }

    match color_hsv.as_rgba() {
        Color::Rgba { red, green, blue, alpha } => {
            assert_eq!(red, fixed(1.0));
            assert_eq!(green, fixed(0.5));
            assert_eq!(blue, fixed(0.25));
            assert_eq!(alpha, fixed(1.0))
        }
        _ => unreachable!(),
    }
}

#[test]
fn test_set_colors() {
    let mut color = Color::hsva(fixed(0.0), fixed(0.0), fixed(0.0), fixed(0.0));
    let mut color_rgb = color.as_rgba();

    color.set_r(fixed(1.0));
    color_rgb.set_r(fixed(1.0));
    assert_colors_eq(&color, &color_rgb);

    color.set_g(fixed(1.0));
    color_rgb.set_g(fixed(1.0));
    assert_colors_eq(&color, &color_rgb);

    color.set_b(fixed(1.0));
    color_rgb.set_b(fixed(1.0));
    assert_colors_eq(&color, &color_rgb);

    // Both are now white. The HSVA one stores the new hue as it is; the RGBA
    // one stays white, whose hue reads 0 (achromatic).
    color.set_h(fixed(1.0));
    color_rgb.set_h(fixed(1.0));
    assert_eq!(color.r(), color_rgb.r());
    assert_eq!(color.g(), color_rgb.g());
    assert_eq!(color.b(), color_rgb.b());
    assert_eq!(color.s(), color_rgb.s());
    assert_eq!(color.v(), color_rgb.v());
    assert_eq!(color.a(), color_rgb.a());
    assert_eq!(color.h(), fixed(1.0));
    assert_eq!(color_rgb.h(), 0);

    // Full saturation now brings out the hue each of them holds: 1 degree and 0.
    color.set_s(fixed(1.0));
    color_rgb.set_s(fixed(1.0));
    assert_eq!(color, Color::Hsva { hue: fixed(1.0), saturation: ONE, value: ONE, alpha: 0 });
    assert_eq!(color_rgb, Color::Rgba { red: ONE, green: 0, blue: 0, alpha: 0 });
    assert_eq!((color.r(), color.g(), color.b()), (ONE, ONE / 60, 0));

    color.set_v(fixed(1.0));
    color_rgb.set_v(fixed(1.0));
    assert_eq!(color, Color::Hsva { hue: fixed(1.0), saturation: ONE, value: ONE, alpha: 0 });
    assert_eq!(color_rgb, Color::Rgba { red: ONE, green: 0, blue: 0, alpha: 0 });

    color.set_a(fixed(1.0));
    color_rgb.set_a(fixed(1.0));
    assert_eq!(color.a(), ONE);
    assert_eq!(color_rgb.a(), ONE);
}

#[test]
fn achromatic_black_has_zero_hue_and_saturation() {
    let black = Color::rgb(0, 0, 0);
    assert_eq!(black.h(), 0);
    assert_eq!(black.s(), 0);
    assert_eq!(black.v(), 0);
}

#[test]
fn grey_keeps_its_level() {
    let grey = Color::rgb(ONE / 2, ONE / 2, ONE / 2);
    assert_eq!(grey.as_hsva(), Color::Hsva { hue: 0, saturation: 0, value: ONE / 2, alpha: ONE });
    assert_eq!(grey.as_hsva().as_rgba(), grey);
}

#[test]
fn set_r_on_transparent_black_matches_rgba() {
    let mut c = Color::hsva(0, 0, 0, 0);
    c.set_r(ONE);
    assert_eq!(c, Color::rgba(ONE, 0, 0, 0).as_hsva());
    assert_eq!(c, Color::Hsva { hue: 0, saturation: ONE, value: ONE, alpha: 0 });
}

#[test]
fn each_sector_converts() {
    // Pure hues at the start of each sector, and the middle of sector 0.
    let cases = [
        (0, (ONE, 0, 0)),
        (HUE_SECTOR, (ONE, ONE, 0)),
        (2 * HUE_SECTOR, (0, ONE, 0)),
        (3 * HUE_SECTOR, (0, ONE, ONE)),
        (4 * HUE_SECTOR, (0, 0, ONE)),
        (5 * HUE_SECTOR, (ONE, 0, ONE)),
        (HUE_SECTOR / 2, (ONE, ONE / 2, 0)),
    ];
    for (hue, rgb) in cases {
        let c = Color::hsv(hue, ONE, ONE);
        assert_eq!((c.r(), c.g(), c.b()), rgb);
        let back = Color::rgb(rgb.0, rgb.1, rgb.2);
        assert_eq!(back.h(), hue);
    }
}

#[test]
fn hue_negative_numerator_wraps() {
    // Red largest, blue above green: hue lands in the last sector.
    let c = Color::rgb(ONE, 0, ONE / 2);
    assert_eq!(c.h(), 330 * ONE);
    assert_eq!(c.s(), ONE);
    assert_eq!(c.as_hsva().as_rgba(), c);
}

#[test]
fn inputs_are_clamped_and_wrapped() {
    assert_eq!(Color::rgba(2 * ONE, ONE, 7, 3 * ONE), Color::Rgba { red: ONE, green: ONE, blue: 7, alpha: ONE });
    assert_eq!(Color::hsv(HUE_TURN, 2 * ONE, ONE), Color::Hsva { hue: 0, saturation: ONE, value: ONE, alpha: ONE });
    assert_eq!(Color::hsva(HUE_TURN + 5, 1, 2, 3), Color::Hsva { hue: 5, saturation: 1, value: 2, alpha: 3 });
    let mut c = Color::hsv(0, 0, 0);
    c.set_h(HUE_TURN + HUE_SECTOR);
    assert_eq!(c.h(), HUE_SECTOR);
    c.set_a(u64::MAX);
    assert_eq!(c.a(), ONE);
}

#[test]
fn alpha_survives_every_operation() {
    let a = ONE / 3;
    let mut c = Color::rgba(ONE / 5, ONE / 7, ONE / 9, a);
    assert_eq!(c.as_hsva().a(), a);
    assert_eq!(c.as_hsva().as_rgba().a(), a);
    c.set_h(100 * ONE);
    c.set_s(ONE / 2);
    c.set_v(ONE / 4);
    assert_eq!(c.a(), a);
    let mut d = c.as_hsva();
    d.set_r(ONE);
    d.set_g(ONE / 8);
    d.set_b(0);
    assert_eq!(d.a(), a);
    d.set_a(ONE / 2);
    assert_eq!(d.a(), ONE / 2);
    assert!(matches!(d, Color::Hsva { .. }));
}

#[test]
fn setters_agree_across_models() {
    let v = Color::rgb(fixed(1.0), fixed(0.5), fixed(0.25));
    let w = Color::hsv(fixed(20.0), fixed(0.75), fixed(1.0));
    assert_eq!(v.as_hsva(), w);
    assert_eq!(w.as_rgba(), v);
    for x in [0, ONE / 3, ONE / 2, ONE] {
        let (mut v1, mut w1) = (v, w);
        v1.set_r(x);
        w1.set_r(x);
        assert_eq!((v1.h(), v1.s(), v1.v()), (w1.h(), w1.s(), w1.v()));
        let (mut v2, mut w2) = (v, w);
        v2.set_v(x);
        w2.set_v(x);
        assert_eq!((v2.r(), v2.g(), v2.b()), (w2.r(), w2.g(), w2.b()));
    }
    let (mut v3, mut w3) = (v, w);
    v3.set_h(200 * ONE);
    w3.set_h(200 * ONE);
    assert_eq!(v3, w3.as_rgba());
}

#[test]
fn same_model_setter_is_idempotent() {
    let mut c = Color::rgb(ONE / 5, ONE / 7, ONE / 9);
    c.set_r(ONE / 2);
    let once = c;
    c.set_r(ONE / 2);
    assert_eq!(c, once);
    let mut h = Color::hsv(123 * ONE, ONE / 3, ONE / 2);
    h.set_s(ONE / 4);
    let once = h;
    h.set_s(ONE / 4);
    assert_eq!(h, once);
}

#[test]
fn setters_chain() {
    let mut c = Color::rgb(0, 0, 0);
    c.set_r(ONE).set_g(ONE / 2).set_b(ONE / 4).set_a(ONE / 2);
    assert_eq!(c, Color::rgba(ONE, ONE / 2, ONE / 4, ONE / 2));
}

#[test]
fn rgb_round_trip_stays_close() {
    let samples = [
        (ONE / 3, ONE / 7, 5 * ONE / 11),
        (1, 2, 3),
        (ONE, ONE - 1, ONE - 2),
        (12345, 678901, 234567),
        (ONE / 2, ONE / 2, 0),
    ];
    for (r, g, b) in samples {
        let c = Color::rgb(r, g, b);
        let back = c.as_hsva().as_rgba();
        for (x, y) in [(c.r(), back.r()), (c.g(), back.g()), (c.b(), back.b())] {
            assert!(x.abs_diff(y) <= 2, "{x} vs {y}");
        }
        assert_eq!(back.a(), c.a());
    }
}

#[test]
fn hsva_round_trip_loses_hue_of_grey() {
    // A grey has no hue in RGB, so the way back reads hue 0.
    let c = Color::hsv(100 * ONE, 0, ONE / 2);
    assert_eq!(c.as_rgba(), Color::rgb(ONE / 2, ONE / 2, ONE / 2));
    assert_eq!(c.as_rgba().as_hsva(), Color::hsv(0, 0, ONE / 2));
}

/// Within 1e-5 of each other.
fn near(a: u64, b: u64) -> bool {
    a.abs_diff(b) <= ONE / 100_000
}

/// Hues within 1e-5 degrees of each other, going either way round the wheel.
fn hue_near(a: u64, b: u64) -> bool {
    let e = a.abs_diff(b);
    e.min(HUE_TURN - e) <= ONE / 100_000
}

#[test]
fn dark_hsva_round_trip_within_tolerance() {
    let c = Color::hsva(0, ONE / 2, fixed(0.01), ONE);
    let back = c.as_rgba().as_hsva();
    assert_eq!(back.v(), c.v());
    assert_eq!(back.a(), c.a());
    assert!(back.s() <= c.s() && near(back.s(), c.s()));
    assert!(hue_near(back.h(), c.h()));

    let c = Color::hsva(fixed(200.5), fixed(0.3), fixed(0.02), ONE / 4);
    let back = c.as_rgba().as_hsva();
    assert_eq!(back.v(), c.v());
    assert!(near(back.s(), c.s()));
    assert!(hue_near(back.h(), c.h()));
}

#[test]
fn dark_colour_setters_agree_across_models() {
    for v in [
        Color::rgba(fixed(0.01), fixed(0.005), fixed(0.005), ONE),
        Color::rgba(ONE, ONE / 2, ONE / 2, ONE),
        Color::rgba(fixed(0.03), fixed(0.02), fixed(0.011), ONE / 3),
    ] {
        let w = v.as_hsva();
        let setters: [fn(&mut Color, u64); 6] = [
            |c, x| {
                c.set_r(x);
            },
            |c, x| {
                c.set_g(x);
            },
            |c, x| {
                c.set_b(x);
            },
            |c, x| {
                c.set_h(x);
            },
            |c, x| {
                c.set_s(x);
            },
            |c, x| {
                c.set_v(x);
            },
        ];
        for (i, set) in setters.iter().enumerate() {
            let x = if i == 3 { fixed(10.0) } else { fixed(0.01) * (i as u64 + 1) };
            let (mut v1, mut w1) = (v, w);
            set(&mut v1, x);
            set(&mut w1, x);
            assert!(matches!(v1, Color::Rgba { .. }) && matches!(w1, Color::Hsva { .. }));
            assert!(near(v1.r(), w1.r()) && near(v1.g(), w1.g()) && near(v1.b(), w1.b()));
            assert!(near(v1.s(), w1.s()) && near(v1.v(), w1.v()), "setter {i}");
            assert!(hue_near(v1.h(), w1.h()), "setter {i}");
            assert_eq!(v1.a(), w1.a());
        }
    }
}
