//! Axial hex coordinates and rotation by multiples of 60 degrees.
//!
//! A `Hex` stores the two axial coordinates `(q, r)`. The redundant cube
//! form `(q, r, s)` with `q + r + s == 0` is derived on demand; it makes a
//! rotation about the origin a permutation (with sign flips) of the three
//! cube components.

use vstd::prelude::*;

verus! {

use vstd::math::abs;

/// One cell position on the axial hex grid.
#[derive(Clone, Copy, PartialEq, Eq, Structural, Debug, Hash)]
pub struct Hex {
    pub q: i32,
    pub r: i32,
}

/// One of the six rotations about the origin hex.
#[derive(Clone, Copy, PartialEq, Eq, Structural, Debug)]
pub enum Rotation {
    Rot0,
    Rot60Cw,
    Rot60Ccw,
    Rot120Cw,
    Rot120Ccw,
    Rot180,
}

/// Cube form of a hex coordinate; valid values satisfy `q + r + s == 0`.
#[derive(Clone, Copy, PartialEq, Eq, Structural, Debug)]
pub struct HexCube {
    pub q: i32,
    pub r: i32,
    pub s: i32,
}

/// How many 60-degree clockwise steps a rotation performs.
pub open spec fn rot_steps(rot: Rotation) -> nat {
    match rot {
        Rotation::Rot0 => 0,
        Rotation::Rot60Cw => 1,
        Rotation::Rot120Cw => 2,
        Rotation::Rot180 => 3,
        Rotation::Rot120Ccw => 4,
        Rotation::Rot60Ccw => 5,
    }
}

/// The rotation that performs `n % 6` clockwise steps.
pub open spec fn rot_of_steps(n: nat) -> Rotation {
    if n % 6 == 0 {
        Rotation::Rot0
    } else if n % 6 == 1 {
        Rotation::Rot60Cw
    } else if n % 6 == 2 {
        Rotation::Rot120Cw
    } else if n % 6 == 3 {
        Rotation::Rot180
    } else if n % 6 == 4 {
        Rotation::Rot120Ccw
    } else {
        Rotation::Rot60Ccw
    }
}

/// One 60-degree clockwise rotation of an axial coordinate pair:
/// in cube form `(q, r, s)` becomes `(-r, -s, -q)`, so axially
/// `(q, r)` becomes `(-r, q + r)`.
pub open spec fn rot_cw(p: (int, int)) -> (int, int) {
    (-p.1, p.0 + p.1)
}

/// One 60-degree counter-clockwise rotation of an axial pair:
/// in cube form `(q, r, s)` becomes `(-s, -q, -r)`, so axially
/// `(q, r)` becomes `(q + r, -q)`.
pub open spec fn rot_ccw(p: (int, int)) -> (int, int) {
    (p.0 + p.1, -p.0)
}

/// `n` clockwise rotation steps applied to an axial pair.
pub open spec fn rot_cw_n(p: (int, int), n: nat) -> (int, int)
    decreases n,
{
    if n == 0 {
        p
    } else {
        rot_cw(rot_cw_n(p, (n - 1) as nat))
    }
}

/// `n` counter-clockwise rotation steps applied to an axial pair.
pub open spec fn rot_ccw_n(p: (int, int), n: nat) -> (int, int)
    decreases n,
{
    if n == 0 {
        p
    } else {
        rot_ccw(rot_ccw_n(p, (n - 1) as nat))
    }
}

/// The rotation of an axial pair, as the fixed permutation table over the
/// cube components.
pub open spec fn spec_rotate(p: (int, int), rot: Rotation) -> (int, int) {
    let q = p.0;
    let r = p.1;
    let s = -q - r;
    match rot {
        Rotation::Rot0 => (q, r),
        Rotation::Rot60Cw => (-r, -s),
        Rotation::Rot60Ccw => (-s, -q),
        Rotation::Rot120Cw => (s, q),
        Rotation::Rot120Ccw => (r, s),
        Rotation::Rot180 => (-q, -r),
    }
}

/// The rotation equivalent to performing `a` and then `b`.
pub open spec fn spec_compose(a: Rotation, b: Rotation) -> Rotation {
    rot_of_steps(rot_steps(a) + rot_steps(b))
}

/// The fixed permutation (with sign flips) a rotation applies to the
/// three cube components.
pub open spec fn spec_cube_rotate(q: int, r: int, s: int, rot: Rotation) -> (int, int, int) {
    match rot {
        Rotation::Rot0 => (q, r, s),
        Rotation::Rot60Cw => (-r, -s, -q),
        Rotation::Rot60Ccw => (-s, -q, -r),
        Rotation::Rot120Cw => (s, q, r),
        Rotation::Rot120Ccw => (r, s, q),
        Rotation::Rot180 => (-q, -r, -s),
    }
}

/// Rounds a coordinate given in thousandths to the nearest integer,
/// halves away from zero.
pub open spec fn round_milli(x: int) -> int {
    if x >= 0 {
        (x + 500) / 1000
    } else {
        -((-x + 500) / 1000)
    }
}

/// The absolute rounding error of `round_milli`, in thousandths.
pub open spec fn err_milli(x: int) -> int {
    abs(1000 * round_milli(x) - x) as int
}

/// Nearest-hex rounding of a fractional cube coordinate, given in
/// thousandths: round the three components independently, then discard
/// the one with the largest rounding error and recompute it from the
/// other two, so that the result satisfies `q + r + s == 0`.
pub open spec fn spec_from_fraction(fq: int, fr: int, fs: int) -> (int, int, int) {
    let q = round_milli(fq);
    let r = round_milli(fr);
    let s = round_milli(fs);
    let dq = err_milli(fq);
    let dr = err_milli(fr);
    let ds = err_milli(fs);
    if dq > dr && dq > ds {
        (-r - s, r, s)
    } else if dr > ds {
        (q, -q - s, s)
    } else {
        (q, r, -q - r)
    }
}

impl Hex {
    /// The axial pair this hex denotes, at the mathematical level.
    pub open spec fn spec_pair(self) -> (int, int) {
        (self.q as int, self.r as int)
    }

    /// Derives the cube form; the third component is `-q - r`.
    pub fn to_cube(&self) -> (c: HexCube)
        requires
            -0x4000_0000 < self.q < 0x4000_0000,
            -0x4000_0000 < self.r < 0x4000_0000,
        ensures
            c.q == self.q,
            c.r == self.r,
            c.q + c.r + c.s == 0,
    {
        HexCube { q: self.q, r: self.r, s: -self.q - self.r }
    }

    /// Component-wise sum of two hex coordinates.
    pub fn add(&self, rhs: &Hex) -> (h: Hex)
        requires
            i32::MIN <= self.q + rhs.q <= i32::MAX,
            i32::MIN <= self.r + rhs.r <= i32::MAX,
        ensures
            h.q == self.q + rhs.q,
            h.r == self.r + rhs.r,
    {
        Hex { q: self.q + rhs.q, r: self.r + rhs.r }
    }

    /// Component-wise difference of two hex coordinates.
    pub fn sub(&self, rhs: &Hex) -> (h: Hex)
        requires
            i32::MIN <= self.q - rhs.q <= i32::MAX,
            i32::MIN <= self.r - rhs.r <= i32::MAX,
        ensures
            h.q == self.q - rhs.q,
            h.r == self.r - rhs.r,
    {
        Hex { q: self.q - rhs.q, r: self.r - rhs.r }
    }

    /// Rounds a fractional axial coordinate, given in thousandths, to the
    /// nearest hex; the third cube component is derived before rounding.
    pub fn from_fraction(q_milli: i64, r_milli: i64) -> (h: Hex)
        requires
            -1_000_000_000 <= q_milli <= 1_000_000_000,
            -1_000_000_000 <= r_milli <= 1_000_000_000,
        ensures
            ({
                let t = spec_from_fraction(q_milli as int, r_milli as int,
                    -q_milli - r_milli);
                h.q == t.0 && h.r == t.1
            }),
    {
        let s_milli = -q_milli - r_milli;
        HexCube::from_fraction(q_milli, r_milli, s_milli).to_hex()
    }

    /// Rotates this hex about the origin by converting to cube form,
    /// permuting the components, and converting back.
    pub fn rotate(&self, rotation: Rotation) -> (h: Hex)
        requires
            -0x4000_0000 < self.q < 0x4000_0000,
            -0x4000_0000 < self.r < 0x4000_0000,
        ensures
            h.spec_pair() == spec_rotate(self.spec_pair(), rotation),
    {
        self.to_cube().rotate(rotation).to_hex()
    }
}

impl HexCube {
    /// Drops the redundant third component.
    pub fn to_hex(&self) -> (h: Hex)
        ensures
            h.q == self.q,
            h.r == self.r,
    {
        Hex { q: self.q, r: self.r }
    }

    /// Applies one of the six fixed cube-component permutations.
    pub fn rotate(&self, rotation: Rotation) -> (c: HexCube)
        requires
            self.q > i32::MIN,
            self.r > i32::MIN,
            self.s > i32::MIN,
        ensures
            (c.q as int, c.r as int, c.s as int)
                == spec_cube_rotate(self.q as int, self.r as int, self.s as int, rotation),
            self.q + self.r + self.s == 0 ==> (c.q as int, c.r as int)
                == spec_rotate((self.q as int, self.r as int), rotation),
            self.q + self.r + self.s == 0 ==> c.q + c.r + c.s == 0,
    {
        match rotation {
            Rotation::Rot0 => HexCube { q: self.q, r: self.r, s: self.s },
            Rotation::Rot60Cw => HexCube { q: -self.r, r: -self.s, s: -self.q },
            Rotation::Rot60Ccw => HexCube { q: -self.s, r: -self.q, s: -self.r },
            Rotation::Rot120Cw => HexCube { q: self.s, r: self.q, s: self.r },
            Rotation::Rot120Ccw => HexCube { q: self.r, r: self.s, s: self.q },
            Rotation::Rot180 => HexCube { q: -self.q, r: -self.r, s: -self.s },
        }
    }
    /// Rounds the three fractional cube components, given in thousandths,
    /// independently, then discards the component with the largest
    /// rounding error and recomputes it from the other two, preserving
    /// the cube invariant.
    pub fn from_fraction(frac_q: i64, frac_r: i64, frac_s: i64) -> (c: HexCube)
        requires
            -2_000_000_000 <= frac_q <= 2_000_000_000,
            -2_000_000_000 <= frac_r <= 2_000_000_000,
            -2_000_000_000 <= frac_s <= 2_000_000_000,
        ensures
            (c.q as int, c.r as int, c.s as int)
                == spec_from_fraction(frac_q as int, frac_r as int, frac_s as int),
            c.q + c.r + c.s == 0,
    {
        let q = round_milli_i64(frac_q);
        let r = round_milli_i64(frac_r);
        let s = round_milli_i64(frac_s);

        let q_diff = rounding_error(q, frac_q);
        let r_diff = rounding_error(r, frac_r);
        let s_diff = rounding_error(s, frac_s);

        if q_diff > r_diff && q_diff > s_diff {
            HexCube { q: (-r - s) as i32, r: r as i32, s: s as i32 }
        } else if r_diff > s_diff {
            HexCube { q: q as i32, r: (-q - s) as i32, s: s as i32 }
        } else {
            HexCube { q: q as i32, r: r as i32, s: (-q - r) as i32 }
        }
    }
}

/// The absolute error, in thousandths, of taking `n` for the fractional
/// value `frac`.
fn rounding_error(n: i64, frac: i64) -> (e: i64)
    requires
        -2_100_000 <= n <= 2_100_000,
        -2_000_000_000 <= frac <= 2_000_000_000,
    ensures
        n == round_milli(frac as int) ==> e == err_milli(frac as int),
{
    let d = 1000 * n - frac;
    if d >= 0 {
        d
    } else {
        -d
    }
}

/// Rounds a thousandths value to the nearest integer, halves away from
/// zero.
fn round_milli_i64(x: i64) -> (n: i64)
    requires
        -2_000_000_000 <= x <= 2_000_000_000,
    ensures
        n == round_milli(x as int),
        -2_100_000 <= n <= 2_100_000,
{
    if x >= 0 {
        (x + 500) / 1000
    } else {
        -((-x + 500) / 1000)
    }
}

/// How many 60-degree clockwise steps a rotation performs.
pub fn rotation_steps(rot: Rotation) -> (n: u8)
    ensures
        n == rot_steps(rot),
{
    match rot {
        Rotation::Rot0 => 0,
        Rotation::Rot60Cw => 1,
        Rotation::Rot120Cw => 2,
        Rotation::Rot180 => 3,
        Rotation::Rot120Ccw => 4,
        Rotation::Rot60Ccw => 5,
    }
}

/// The rotation that performs `n` clockwise steps.
pub fn rotation_of_steps(n: u8) -> (rot: Rotation)
    requires
        n < 6,
    ensures
        rot == rot_of_steps(n as nat),
{
    match n {
        0 => Rotation::Rot0,
        1 => Rotation::Rot60Cw,
        2 => Rotation::Rot120Cw,
        3 => Rotation::Rot180,
        4 => Rotation::Rot120Ccw,
        _ => Rotation::Rot60Ccw,
    }
}

/// The rotation equivalent to performing `a` and then `b`.
pub fn compose(a: Rotation, b: Rotation) -> (rot: Rotation)
    ensures
        rot == spec_compose(a, b),
{
    let n = (rotation_steps(a) + rotation_steps(b)) % 6;
    let result = rotation_of_steps(n);
    proof {
        assert(rot_of_steps(((rot_steps(a) + rot_steps(b)) % 6) as nat)
            == rot_of_steps(rot_steps(a) + rot_steps(b)));
    }
    result
}

/// Splitting a count of rotation steps: rotating by `m + n` steps equals
/// rotating by `m` steps and then by `n` steps.
proof fn lemma_rot_cw_n_add(p: (int, int), m: nat, n: nat)
    ensures
        rot_cw_n(p, m + n) == rot_cw_n(rot_cw_n(p, m), n),
    decreases n,
{
    if n > 0 {
        lemma_rot_cw_n_add(p, m, (n - 1) as nat);
    }
}

/// Six clockwise rotation steps are the identity.
proof fn lemma_rot_cw_six(p: (int, int))
    ensures
        rot_cw_n(p, 6) == p,
{
    reveal_with_fuel(rot_cw_n, 7);
}

/// Rotation steps only matter modulo six.
proof fn lemma_rot_cw_n_mod(p: (int, int), n: nat)
    ensures
        rot_cw_n(p, n) == rot_cw_n(p, (n % 6) as nat),
    decreases n,
{
    if n >= 6 {
        lemma_rot_cw_n_add(p, 6, (n - 6) as nat);
        lemma_rot_cw_six(p);
        lemma_rot_cw_n_mod(p, (n - 6) as nat);
    }
}

/// The fixed permutation table agrees with iterated single clockwise
/// steps.
pub proof fn lemma_rotate_as_steps(p: (int, int), rot: Rotation)
    ensures
        spec_rotate(p, rot) == rot_cw_n(p, rot_steps(rot)),
{
    reveal_with_fuel(rot_cw_n, 7);
}

/// Rotation composition law: rotating by `a` and then by `b` gives the
/// same hex as the single combined rotation.
pub proof fn lemma_rotate_compose(p: (int, int), a: Rotation, b: Rotation)
    ensures
        spec_rotate(spec_rotate(p, a), b) == spec_rotate(p, spec_compose(a, b)),
{
    let sa = rot_steps(a);
    let sb = rot_steps(b);
    lemma_rotate_as_steps(p, a);
    lemma_rotate_as_steps(spec_rotate(p, a), b);
    lemma_rotate_as_steps(p, spec_compose(a, b));
    lemma_rot_cw_n_add(p, sa, sb);
    lemma_rot_cw_n_mod(p, sa + sb);
    assert(rot_steps(rot_of_steps(sa + sb)) == (sa + sb) % 6);
}

/// Rotating by the null rotation is the identity.
pub proof fn lemma_rotate_identity(p: (int, int))
    ensures
        spec_rotate(p, Rotation::Rot0) == p,
{
}

/// Applying any one rotation six times in a row returns to the starting
/// hex.
pub proof fn lemma_rotate_six_times(p: (int, int), rot: Rotation)
    ensures
        ({
            let p1 = spec_rotate(p, rot);
            let p2 = spec_rotate(p1, rot);
            let p3 = spec_rotate(p2, rot);
            let p4 = spec_rotate(p3, rot);
            let p5 = spec_rotate(p4, rot);
            spec_rotate(p5, rot) == p
        }),
{
    let s = rot_steps(rot);
    let p1 = spec_rotate(p, rot);
    let p2 = spec_rotate(p1, rot);
    let p3 = spec_rotate(p2, rot);
    let p4 = spec_rotate(p3, rot);
    let p5 = spec_rotate(p4, rot);
    lemma_rotate_as_steps(p, rot);
    lemma_rotate_as_steps(p1, rot);
    lemma_rotate_as_steps(p2, rot);
    lemma_rotate_as_steps(p3, rot);
    lemma_rotate_as_steps(p4, rot);
    lemma_rotate_as_steps(p5, rot);
    lemma_rot_cw_n_add(p, s, s);
    lemma_rot_cw_n_add(p, s + s, s);
    lemma_rot_cw_n_add(p, s + s + s, s);
    lemma_rot_cw_n_add(p, s + s + s + s, s);
    lemma_rot_cw_n_add(p, s + s + s + s + s, s);
    lemma_rot_cw_n_mod(p, 6 * s);
    assert(6 * s % 6 == 0) by (nonlinear_arith);
}

/// The cube invariant: every nearest-hex rounding result sums to zero.
pub proof fn lemma_from_fraction_cube_invariant(fq: int, fr: int, fs: int)
    ensures
        ({
            let t = spec_from_fraction(fq, fr, fs);
            t.0 + t.1 + t.2 == 0
        }),
{
}

/// `round_milli` is exact on any value within half a unit of an integer.
pub proof fn lemma_round_milli_near(x: int, n: int)
    requires
        -500 < x - 1000 * n < 500,
    ensures
        round_milli(x) == n,
{
    if x >= 0 {
        assert((x + 500) / 1000 == n) by (nonlinear_arith)
            requires x >= 0 && -500 < x - 1000 * n < 500;
    } else {
        assert(-((-x + 500) / 1000) == n) by (nonlinear_arith)
            requires x < 0 && -500 < x - 1000 * n < 500;
    }
}

/// Round trip: a fractional cube coordinate that lies within half a unit
/// of an on-grid hex rounds back to exactly that hex.
pub proof fn lemma_from_fraction_round_trip(fq: int, fr: int, fs: int,
    q: int, r: int, s: int)
    requires
        q + r + s == 0,
        -500 < fq - 1000 * q < 500,
        -500 < fr - 1000 * r < 500,
        -500 < fs - 1000 * s < 500,
    ensures
        spec_from_fraction(fq, fr, fs) == (q, r, s),
{
    lemma_round_milli_near(fq, q);
    lemma_round_milli_near(fr, r);
    lemma_round_milli_near(fs, s);
}

} // verus!
