//! An independently animated lane of the fixture: its particles and its
//! persistent pixel buffer.

use vstd::prelude::*;
use crate::color::{background, mix_spec, screen_spec, Color};
use crate::particle::{make_mask, mask_pixel, Particle};

verus! {

#[derive(Debug)]
pub struct Segment {
    pub particles: Vec<Particle>,
    pub pixels: Vec<Color>,
}

/// A spawn draw above one adds a particle.
pub open spec fn spawns_spec(sample: u64) -> bool {
    sample > 1
}

/// The particles after the spawn decision of tick `n`.
pub open spec fn spawned(ps: Seq<Particle>, n: u64, sample: u64, color: Color) -> Seq<Particle> {
    if spawns_spec(sample) {
        ps.push(Particle { creation_tick: n, color })
    } else {
        ps
    }
}

/// One pixel after compositing its mask color and fading by `decay / 255`.
pub open spec fn next_pixel(old: Color, mask: Color, decay: u8) -> Color {
    mix_spec(screen_spec(old, mask), background(), decay)
}

/// The pixel buffer after one tick: each pixel composited with the mask of the
/// particles `ps` at tick `n`, then faded.
pub open spec fn next_pixels(pixels: Seq<Color>, ps: Seq<Particle>, n: u64, decay: u8) -> Seq<Color> {
    Seq::new(pixels.len(), |i: int| next_pixel(pixels[i], mask_pixel(ps, n, i), decay))
}

/// With the largest decay a tick leaves every pixel at the background,
/// whatever it held and whatever the particles drew.
pub proof fn lemma_full_decay_clears(pixels: Seq<Color>, ps: Seq<Particle>, n: u64)
    ensures
        next_pixels(pixels, ps, n, 255) == Seq::new(pixels.len(), |i: int| background()),
{
    assert forall|i: int| 0 <= i < pixels.len() implies #[trigger] next_pixels(
        pixels,
        ps,
        n,
        255,
    )[i] == background() by {
        let lit = screen_spec(pixels[i], mask_pixel(ps, n, i));
        assert(lit.red as int * 0 + 0 * 255 == 0);
        assert(lit.green as int * 0 + 0 * 255 == 0);
        assert(lit.blue as int * 0 + 0 * 255 == 0);
    }
    assert(next_pixels(pixels, ps, n, 255) =~= Seq::new(pixels.len(), |i: int| background()));
}

/// Whether a spawn draw adds a particle.
pub fn spawns(sample: u64) -> (r: bool)
    ensures
        r == spawns_spec(sample),
{
    sample > 1
}

impl Segment {
    /// A segment of `len` pixels, all background, with no particles.
    pub fn new(len: usize) -> (s: Segment)
        ensures
            s.particles@ == Seq::<Particle>::empty(),
            s.pixels@ == Seq::new(len as nat, |i: int| background()),
    {
        let mut pixels: Vec<Color> = Vec::with_capacity(len);
        let mut i: usize = 0;
        while i < len
            invariant
                i <= len,
                pixels@.len() == i,
                forall|k: int| 0 <= k < i ==> pixels@[k] == background(),
            decreases len - i,
        {
            pixels.push(Color::background());
            i = i + 1;
        }
        assert(pixels@ =~= Seq::new(len as nat, |i: int| background()));
        Segment { particles: Vec::new(), pixels }
    }

    /// Advances the segment by tick `n`: a particle of `color` is added when
    /// the spawn draw `sample` calls for one, then every pixel is composited
    /// with the mask and faded toward the background by `decay / 255`.
    pub fn step(&mut self, n: u64, sample: u64, color: Color, decay: u8)
        ensures
            final(self).particles@ == spawned(old(self).particles@, n, sample, color),
            final(self).pixels@ == next_pixels(old(self).pixels@, final(self).particles@, n, decay),
    {
        if spawns(sample) {
            self.particles.push(Particle::new(n, color));
        }
        let len = self.pixels.len();
        let mask = make_mask(&self.particles, n, len);
        let ghost before = self.pixels@;
        let mut i: usize = 0;
        while i < len
            invariant
                i <= len,
                len == before.len(),
                mask@.len() == len,
                self.pixels@.len() == len,
                self.particles@ == spawned(old(self).particles@, n, sample, color),
                before == old(self).pixels@,
                forall|k: int| 0 <= k < len ==> mask@[k] == mask_pixel(self.particles@, n, k),
                forall|k: int|
                    0 <= k < i ==> self.pixels@[k] == next_pixel(before[k], mask@[k], decay),
                forall|k: int| i <= k < len ==> self.pixels@[k] == before[k],
            decreases len - i,
        {
            let lit = self.pixels[i].screen(mask[i]);
            self.pixels.set(i, lit.mix(Color::background(), decay));
            i = i + 1;
        }
        assert(self.pixels@ =~= next_pixels(before, self.particles@, n, decay));
    }
}

} // verus!
