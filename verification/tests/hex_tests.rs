use hexboard::hex::{compose, Hex, HexCube, Rotation};

const ALL_ROTATIONS: [Rotation; 6] = [
    Rotation::Rot0,
    Rotation::Rot60Cw,
    Rotation::Rot120Cw,
    Rotation::Rot180,
    Rotation::Rot120Ccw,
    Rotation::Rot60Ccw,
];

#[test]
fn add_and_sub_are_componentwise() {
    let a = Hex { q: 3, r: -2 };
    let b = Hex { q: -1, r: 5 };
    assert_eq!(a.add(&b), Hex { q: 2, r: 3 });
    assert_eq!(a.sub(&b), Hex { q: 4, r: -7 });
}

#[test]
fn cube_invariant_holds_for_to_cube() {
    for q in -20..=20 {
        for r in -20..=20 {
            let c = Hex { q, r }.to_cube();
            assert_eq!(c.q + c.r + c.s, 0);
        }
    }
}

#[test]
fn rotation_by_zero_is_identity() {
    for q in -10..=10 {
        for r in -10..=10 {
            let h = Hex { q, r };
            assert_eq!(h.rotate(Rotation::Rot0), h);
        }
    }
}

#[test]
fn rotation_of_anchor_hex() {
    let h = Hex { q: 7, r: 7 };
    assert_eq!(h.rotate(Rotation::Rot60Cw), Hex { q: -7, r: 14 });
    assert_eq!(h.rotate(Rotation::Rot120Cw), Hex { q: -14, r: 7 });
    assert_eq!(h.rotate(Rotation::Rot180), Hex { q: -7, r: -7 });
    assert_eq!(h.rotate(Rotation::Rot120Ccw), Hex { q: 7, r: -14 });
    assert_eq!(h.rotate(Rotation::Rot60Ccw), Hex { q: 14, r: -7 });
}

#[test]
fn rotation_composition_matches_combined_rotation() {
    let samples = [
        Hex { q: 0, r: 0 },
        Hex { q: 1, r: 0 },
        Hex { q: 3, r: -5 },
        Hex { q: -4, r: 9 },
        Hex { q: 7, r: 7 },
    ];
    for &h in samples.iter() {
        for &r1 in ALL_ROTATIONS.iter() {
            for &r2 in ALL_ROTATIONS.iter() {
                assert_eq!(h.rotate(r1).rotate(r2), h.rotate(compose(r1, r2)));
            }
        }
    }
}

#[test]
fn rotating_six_times_returns_to_start() {
    let h = Hex { q: 5, r: -3 };
    for &rot in ALL_ROTATIONS.iter() {
        let mut x = h;
        for _ in 0..6 {
            x = x.rotate(rot);
        }
        assert_eq!(x, h);
    }
}

#[test]
fn composing_opposite_rotations_gives_identity() {
    assert_eq!(compose(Rotation::Rot60Cw, Rotation::Rot60Ccw), Rotation::Rot0);
    assert_eq!(compose(Rotation::Rot120Cw, Rotation::Rot120Ccw), Rotation::Rot0);
    assert_eq!(compose(Rotation::Rot180, Rotation::Rot180), Rotation::Rot0);
    assert_eq!(compose(Rotation::Rot60Cw, Rotation::Rot60Cw), Rotation::Rot120Cw);
}

#[test]
fn from_fraction_is_exact_on_integral_input() {
    assert_eq!(Hex::from_fraction(3000, -2000), Hex { q: 3, r: -2 });
    assert_eq!(Hex::from_fraction(0, 0), Hex { q: 0, r: 0 });
    assert_eq!(Hex::from_fraction(-7000, 14000), Hex { q: -7, r: 14 });
}

#[test]
fn from_fraction_recomputes_the_worst_component() {
    // (2.2, 1.4, s = -3.6): naive rounding gives (2, 1, -4), which sums
    // to -1; the derived component has the worst error and is rebuilt
    // from the other two.
    assert_eq!(Hex::from_fraction(2200, 1400), Hex { q: 2, r: 1 });

    // q has the largest rounding error: it is discarded and recomputed
    // from r and s.
    let c = HexCube::from_fraction(1450, 2000, -3990);
    assert_eq!((c.q, c.r, c.s), (2, 2, -4));
    assert_eq!(c.q + c.r + c.s, 0);

    // r has the largest rounding error: it is discarded and recomputed
    // from q and s.
    let c = HexCube::from_fraction(900, 1450, -2350);
    assert_eq!((c.q, c.r, c.s), (1, 1, -2));
}

#[test]
fn cube_invariant_holds_for_from_fraction() {
    for fq in [-3700i64, -1250, -400, 0, 640, 1500, 2499, 3010] {
        for fr in [-2800i64, -900, 0, 777, 1600, 2950] {
            let c = HexCube::from_fraction(fq, fr, -fq - fr);
            assert_eq!(c.q + c.r + c.s, 0);
        }
    }
}

fn hex_to_pixel(hex: &Hex) -> (f32, f32) {
    let sqrt_3 = 3.0_f32.sqrt();
    let radius = 16.0_f32;
    (
        radius * (3.0 / 2.0 * hex.q as f32),
        -radius * (sqrt_3 / 2.0 * hex.q as f32 + sqrt_3 * hex.r as f32),
    )
}

fn pixel_to_hex(x: f32, y: f32) -> Hex {
    let sqrt_3 = 3.0_f32.sqrt();
    let radius = 16.0_f32;
    let q = (2.0 / 3.0 * x) / radius;
    let r = (-1.0 / 3.0 * x + sqrt_3 / 3.0 * -y) / radius;
    Hex::from_fraction((q * 1000.0).round() as i64, (r * 1000.0).round() as i64)
}

#[test]
fn pixel_round_trip_recovers_every_board_hex() {
    for q in -15..=15 {
        for r in -15..=15 {
            let h = Hex { q, r };
            let (x, y) = hex_to_pixel(&h);
            assert_eq!(pixel_to_hex(x, y), h);
        }
    }
}
