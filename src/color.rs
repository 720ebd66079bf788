//! Fixed-point linear color model with the two blend operators of the engine.
//!
//! A channel holds an intensity in `[0, 1]` scaled to `0..=CHANNEL_MAX`.
//! A blend factor `t` in `[0, 1]` is carried as a byte `d` with `t = d / 255`.

use vstd::prelude::*;

verus! {

/// The channel value that stands for full intensity.
pub const CHANNEL_MAX: u64 = 65535;

/// The denominator of a byte-valued blend factor.
pub const FACTOR_MAX: u64 = 255;

#[derive(Clone, Copy, Debug, PartialEq, Eq, Structural)]
pub struct Color {
    pub red: u16,
    pub green: u16,
    pub blue: u16,
}

/// The color that every pixel starts from and fades back to: no light at all.
pub open spec fn background() -> Color {
    Color { red: 0, green: 0, blue: 0 }
}

/// Additive lightening of one channel: `1 - (1 - a) * (1 - b)`, rounded down.
pub open spec fn screen_channel(a: int, b: int) -> int {
    CHANNEL_MAX - (CHANNEL_MAX - a) * (CHANNEL_MAX - b) / (CHANNEL_MAX as int)
}

/// Linear interpolation of one channel from `a` toward `b` by `d / 255`, rounded down.
pub open spec fn mix_channel(a: int, b: int, d: int) -> int {
    (a * (FACTOR_MAX - d) + b * d) / (FACTOR_MAX as int)
}

pub open spec fn screen_spec(a: Color, b: Color) -> Color {
    Color {
        red: screen_channel(a.red as int, b.red as int) as u16,
        green: screen_channel(a.green as int, b.green as int) as u16,
        blue: screen_channel(a.blue as int, b.blue as int) as u16,
    }
}

pub open spec fn mix_spec(a: Color, b: Color, d: u8) -> Color {
    Color {
        red: mix_channel(a.red as int, b.red as int, d as int) as u16,
        green: mix_channel(a.green as int, b.green as int, d as int) as u16,
        blue: mix_channel(a.blue as int, b.blue as int, d as int) as u16,
    }
}

/// Every channel of `a` is at most the same channel of `b`.
pub open spec fn no_brighter(a: Color, b: Color) -> bool {
    a.red <= b.red && a.green <= b.green && a.blue <= b.blue
}

/// The color after `k` fading steps toward the background, each by `d / 255`,
/// with no light composited in between.
pub open spec fn faded(c: Color, d: u8, k: nat) -> Color
    decreases k,
{
    if k == 0 {
        c
    } else {
        mix_spec(faded(c, d, (k - 1) as nat), background(), d)
    }
}

/// `a - k`, or zero where `k` exceeds `a`.
pub open spec fn dimmed(a: int, k: int) -> int {
    if a > k {
        a - k
    } else {
        0
    }
}

/// Screening with the background leaves a color as it was.
pub proof fn lemma_screen_background(c: Color)
    ensures
        screen_spec(c, background()) == c,
        screen_spec(background(), c) == c,
{
    lemma_screen_channel_identity(c.red as int);
    lemma_screen_channel_identity(c.green as int);
    lemma_screen_channel_identity(c.blue as int);
}

/// Screening does not depend on the order of its operands and never darkens either one.
pub proof fn lemma_screen_commutes_and_lightens(a: Color, b: Color)
    ensures
        screen_spec(a, b) == screen_spec(b, a),
        no_brighter(a, screen_spec(a, b)),
        no_brighter(b, screen_spec(a, b)),
{
    let m = CHANNEL_MAX as int;
    assert((m - a.red) * (m - b.red) == (m - b.red) * (m - a.red)) by (nonlinear_arith);
    assert((m - a.green) * (m - b.green) == (m - b.green) * (m - a.green)) by (nonlinear_arith);
    assert((m - a.blue) * (m - b.blue) == (m - b.blue) * (m - a.blue)) by (nonlinear_arith);
    lemma_screen_channel_bounds(a.red as int, b.red as int);
    lemma_screen_channel_bounds(a.green as int, b.green as int);
    lemma_screen_channel_bounds(a.blue as int, b.blue as int);
}

proof fn lemma_screen_channel_identity(a: int)
    requires
        0 <= a <= CHANNEL_MAX,
    ensures
        screen_channel(a, 0) == a,
        screen_channel(0, a) == a,
{
    let m = CHANNEL_MAX as int;
    assert((m - a) * m / m == m - a) by (nonlinear_arith)
        requires m > 0;
    assert(m * (m - a) == (m - a) * m) by (nonlinear_arith);
}

proof fn lemma_fade_channel(a: int, d: int)
    requires
        0 <= a <= CHANNEL_MAX,
        0 <= d <= FACTOR_MAX,
    ensures
        0 <= mix_channel(a, 0, d) <= a,
        d == 0 ==> mix_channel(a, 0, d) == a,
        d > 0 && a > 0 ==> mix_channel(a, 0, d) < a,
{
    let f = FACTOR_MAX as int;
    assert(a * (f - d) + 0 * d == a * (f - d)) by (nonlinear_arith);
    assert(0 <= a * (f - d) <= a * f) by (nonlinear_arith)
        requires 0 <= a, 0 <= d <= f;
    assert(a * f / f == a) by (nonlinear_arith)
        requires f > 0;
    assert(0 <= a * (f - d) / f <= a * f / f) by (nonlinear_arith)
        requires 0 <= a * (f - d) <= a * f, f > 0;
    if d > 0 && a > 0 {
        assert(a * (f - d) < a * f) by (nonlinear_arith)
            requires a > 0, d > 0;
        assert(a * (f - d) / f < a) by (nonlinear_arith)
            requires a * (f - d) < a * f, f > 0, a * (f - d) >= 0;
    }
}

proof fn lemma_fade_step(c: Color, d: u8)
    ensures
        no_brighter(mix_spec(c, background(), d), c),
        d == 0 ==> mix_spec(c, background(), d) == c,
        d > 0 && c.red > 0 ==> mix_spec(c, background(), d).red < c.red,
        d > 0 && c.green > 0 ==> mix_spec(c, background(), d).green < c.green,
        d > 0 && c.blue > 0 ==> mix_spec(c, background(), d).blue < c.blue,
{
    lemma_fade_channel(c.red as int, d as int);
    lemma_fade_channel(c.green as int, d as int);
    lemma_fade_channel(c.blue as int, d as int);
}

proof fn lemma_fade_bound(c: Color, d: u8, k: nat)
    requires
        d > 0,
    ensures
        faded(c, d, k).red <= dimmed(c.red as int, k as int),
        faded(c, d, k).green <= dimmed(c.green as int, k as int),
        faded(c, d, k).blue <= dimmed(c.blue as int, k as int),
    decreases k,
{
    if k > 0 {
        lemma_fade_bound(c, d, (k - 1) as nat);
        lemma_fade_step(faded(c, d, (k - 1) as nat), d);
    }
}

/// Fading without new light leaves a color unchanged when the factor is zero.
/// With a positive factor each step leaves every channel no brighter, some
/// channel strictly dimmer until the background is reached, and the
/// background is reached after at most `CHANNEL_MAX` steps.
pub proof fn lemma_fade_converges(c: Color, d: u8, k: nat)
    ensures
        d == 0 ==> faded(c, d, k) == c,
        no_brighter(faded(c, d, k + 1), faded(c, d, k)),
        d > 0 && faded(c, d, k) != background() ==> faded(c, d, k + 1) != faded(c, d, k),
        d > 0 && k >= CHANNEL_MAX ==> faded(c, d, k) == background(),
    decreases k,
{
    if k > 0 {
        lemma_fade_converges(c, d, (k - 1) as nat);
        lemma_fade_step(faded(c, d, (k - 1) as nat), d);
    }
    lemma_fade_step(faded(c, d, k), d);
    assert(faded(c, d, k + 1) == mix_spec(faded(c, d, k), background(), d));
    if d > 0 {
        lemma_fade_bound(c, d, k);
    }
}

proof fn lemma_screen_channel_bounds(a: int, b: int)
    requires
        0 <= a <= CHANNEL_MAX,
        0 <= b <= CHANNEL_MAX,
    ensures
        a <= screen_channel(a, b) <= CHANNEL_MAX,
        b <= screen_channel(a, b),
{
    let m = CHANNEL_MAX as int;
    assert(0 <= (m - a) * (m - b) <= (m - a) * m) by (nonlinear_arith)
        requires 0 <= a <= m, 0 <= b <= m;
    assert(0 <= (m - a) * (m - b) <= (m - b) * m) by (nonlinear_arith)
        requires 0 <= a <= m, 0 <= b <= m;
    assert((m - a) * m / m == m - a) by (nonlinear_arith)
        requires m > 0;
    assert((m - b) * m / m == m - b) by (nonlinear_arith)
        requires m > 0;
    assert(0 <= (m - a) * (m - b) / m <= (m - a) * m / m) by (nonlinear_arith)
        requires 0 <= (m - a) * (m - b) <= (m - a) * m, m > 0;
    assert(0 <= (m - a) * (m - b) / m <= (m - b) * m / m) by (nonlinear_arith)
        requires 0 <= (m - a) * (m - b) <= (m - b) * m, m > 0;
}

proof fn lemma_mix_channel_bounds(a: int, b: int, d: int)
    requires
        0 <= a <= CHANNEL_MAX,
        0 <= b <= CHANNEL_MAX,
        0 <= d <= FACTOR_MAX,
    ensures
        0 <= mix_channel(a, b, d) <= CHANNEL_MAX,
{
    let f = FACTOR_MAX as int;
    let m = CHANNEL_MAX as int;
    assert(0 <= a * (f - d) + b * d <= m * f) by (nonlinear_arith)
        requires 0 <= a <= m, 0 <= b <= m, 0 <= d <= f;
    assert(0 <= (a * (f - d) + b * d) / f <= m * f / f) by (nonlinear_arith)
        requires 0 <= a * (f - d) + b * d <= m * f, f > 0;
    assert(m * f / f == m) by (nonlinear_arith)
        requires f > 0;
}

fn screen_channel_exec(a: u16, b: u16) -> (r: u16)
    ensures
        r == screen_channel(a as int, b as int),
{
    proof {
        lemma_screen_channel_bounds(a as int, b as int);
    }
    let ia = CHANNEL_MAX - a as u64;
    let ib = CHANNEL_MAX - b as u64;
    assert(ia * ib <= CHANNEL_MAX * CHANNEL_MAX) by (nonlinear_arith)
        requires ia <= CHANNEL_MAX, ib <= CHANNEL_MAX;
    (CHANNEL_MAX - ia * ib / CHANNEL_MAX) as u16
}

fn mix_channel_exec(a: u16, b: u16, d: u8) -> (r: u16)
    ensures
        r == mix_channel(a as int, b as int, d as int),
{
    proof {
        lemma_mix_channel_bounds(a as int, b as int, d as int);
    }
    let keep = FACTOR_MAX - d as u64;
    assert(a as u64 * keep <= CHANNEL_MAX * FACTOR_MAX) by (nonlinear_arith)
        requires a <= CHANNEL_MAX, keep <= FACTOR_MAX;
    assert(b as u64 * d as u64 <= CHANNEL_MAX * FACTOR_MAX) by (nonlinear_arith)
        requires b <= CHANNEL_MAX, d <= FACTOR_MAX;
    ((a as u64 * keep + b as u64 * d as u64) / FACTOR_MAX) as u16
}

impl Color {
    pub fn new(red: u16, green: u16, blue: u16) -> (c: Color)
        ensures
            c == (Color { red, green, blue }),
    {
        Color { red, green, blue }
    }

    pub fn background() -> (c: Color)
        ensures
            c == background(),
    {
        Color { red: 0, green: 0, blue: 0 }
    }

    /// Composites `overlay` onto `self` without ever darkening either.
    pub fn screen(self, overlay: Color) -> (r: Color)
        ensures
            r == screen_spec(self, overlay),
    {
        Color {
            red: screen_channel_exec(self.red, overlay.red),
            green: screen_channel_exec(self.green, overlay.green),
            blue: screen_channel_exec(self.blue, overlay.blue),
        }
    }

    /// Moves `self` toward `target` by the fraction `factor / 255`.
    pub fn mix(self, target: Color, factor: u8) -> (r: Color)
        ensures
            r == mix_spec(self, target, factor),
    {
        Color {
            red: mix_channel_exec(self.red, target.red, factor),
            green: mix_channel_exec(self.green, target.green, factor),
            blue: mix_channel_exec(self.blue, target.blue, factor),
        }
    }
}

} // verus!
