//! Traveling light pulses and the per-tick mask they draw.
//!
//! A particle moves half a pixel per tick from position zero at its creation
//! tick. Where several particles land on one pixel the one inserted last wins.

use vstd::prelude::*;
use crate::color::{background, Color};

verus! {

#[derive(Clone, Copy, Debug, PartialEq, Eq, Structural)]
pub struct Particle {
    pub creation_tick: u64,
    pub color: Color,
}

/// The pixel a particle created at tick `t` occupies at tick `n >= t`:
/// `floor((n - t) * 0.5)`.
pub open spec fn position(n: u64, t: u64) -> int {
    (n - t) / 2
}

/// Whether `p` is drawn on pixel `i` at tick `n`. A particle is not drawn
/// before its creation tick.
pub open spec fn lands_at(p: Particle, n: u64, i: int) -> bool {
    p.creation_tick <= n && position(n, p.creation_tick) == i
}

/// The mask color of pixel `i` at tick `n`: the color of the last particle of
/// `ps` that lands there, else the background.
pub open spec fn mask_pixel(ps: Seq<Particle>, n: u64, i: int) -> Color
    decreases ps.len(),
{
    if ps.len() == 0 {
        background()
    } else if lands_at(ps.last(), n, i) {
        ps.last().color
    } else {
        mask_pixel(ps.drop_last(), n, i)
    }
}

/// The mask of a segment of `len` pixels at tick `n`.
pub open spec fn mask_spec(ps: Seq<Particle>, n: u64, len: nat) -> Seq<Color> {
    Seq::new(len, |i: int| mask_pixel(ps, n, i))
}

impl Particle {
    pub fn new(creation_tick: u64, color: Color) -> (p: Particle)
        ensures
            p == (Particle { creation_tick, color }),
    {
        Particle { creation_tick, color }
    }
}

/// Draws every particle of `particles`, in order, onto a mask of `len` pixels
/// that starts out as the background. Positions past the end are dropped.
pub fn make_mask(particles: &Vec<Particle>, n: u64, len: usize) -> (mask: Vec<Color>)
    ensures
        mask@ == mask_spec(particles@, n, len as nat),
{
    let mut mask: Vec<Color> = Vec::with_capacity(len);
    let mut i: usize = 0;
    while i < len
        invariant
            i <= len,
            mask@.len() == i,
            forall|k: int| 0 <= k < i ==> mask@[k] == background(),
        decreases len - i,
    {
        mask.push(Color::background());
        i = i + 1;
    }
    let mut j: usize = 0;
    while j < particles.len()
        invariant
            j <= particles@.len(),
            mask@.len() == len,
            forall|k: int|
                0 <= k < len ==> mask@[k] == #[trigger] mask_pixel(particles@.subrange(0, j as int), n, k),
        decreases particles@.len() - j,
    {
        let p = particles[j];
        assert(particles@.subrange(0, j + 1).drop_last() =~= particles@.subrange(0, j as int));
        assert(particles@.subrange(0, j + 1).last() == p);
        let ghost prev = mask@;
        if p.creation_tick <= n {
            let x: u64 = (n - p.creation_tick) / 2;
            if x < len as u64 {
                mask.set(x as usize, p.color);
            }
        }
        assert forall|k: int| 0 <= k < len implies mask@[k] == #[trigger] mask_pixel(
            particles@.subrange(0, j + 1),
            n,
            k,
        ) by {
            assert(prev[k] == mask_pixel(particles@.subrange(0, j as int), n, k));
        }
        j = j + 1;
    }
    assert(particles@.subrange(0, particles@.len() as int) =~= particles@);
    assert(mask@ =~= mask_spec(particles@, n, len as nat));
    mask
}

/// A particle created at tick `t` is drawn nowhere before tick `t`, and from
/// then on, when it is the last particle, it stands exactly on pixel
/// `floor((n - t) * 0.5)`.
pub proof fn lemma_particle_position(ps: Seq<Particle>, p: Particle, n: u64, i: int)
    ensures
        n < p.creation_tick ==> mask_pixel(ps.push(p), n, i) == mask_pixel(ps, n, i),
        p.creation_tick <= n && i == (n - p.creation_tick) / 2 ==> mask_pixel(ps.push(p), n, i)
            == p.color,
        p.creation_tick <= n && i != (n - p.creation_tick) / 2 ==> mask_pixel(ps.push(p), n, i)
            == mask_pixel(ps, n, i),
{
    assert(ps.push(p).drop_last() =~= ps);
    assert(ps.push(p).last() == p);
}

/// Of two particles created at the same tick, the one inserted later holds
/// every pixel on which they land together.
pub proof fn lemma_later_particle_wins(ps: Seq<Particle>, a: Particle, b: Particle, n: u64, i: int)
    requires
        a.creation_tick == b.creation_tick,
        lands_at(a, n, i),
    ensures
        lands_at(b, n, i),
        mask_pixel(ps.push(a).push(b), n, i) == b.color,
{
    assert(ps.push(a).push(b).last() == b);
}

} // verus!
