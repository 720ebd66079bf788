//! The whole fixture: its segments and the three tunable parameters.

use vstd::prelude::*;
use crate::color::Color;
use crate::segment::{next_pixels, spawned, Segment};

verus! {

/// What the render loop draws for one segment at one tick: the Poisson
/// sample that decides whether a particle spawns, and the color it gets.
#[derive(Clone, Copy, Debug, PartialEq, Eq, Structural)]
pub struct SpawnDraw {
    pub sample: u64,
    pub color: Color,
}

#[derive(Debug)]
pub struct Light {
    pub name: String,
    pub id: String,
    pub brightness: u8,
    /// Spawn intensity: the Poisson draw of each segment has mean `2 * lambda`.
    pub lambda: u8,
    /// Fading strength: each tick pulls the pixels toward the background by `decay / 255`.
    pub decay: u8,
    /// Ticks per second; never zero.
    pub rate: u8,
    /// The pixel count of every segment.
    pub pixels_per_segment: usize,
    pub segments: Vec<Segment>,
}

/// All segments' pixels, segment after segment.
pub open spec fn flatten(segs: Seq<Segment>) -> Seq<Color>
    decreases segs.len(),
{
    if segs.len() == 0 {
        Seq::empty()
    } else {
        flatten(segs.drop_last()) + segs.last().pixels@
    }
}

/// Every segment of `segs` has `len` pixels.
pub open spec fn uniform(segs: Seq<Segment>, len: nat) -> bool {
    forall|s: int| 0 <= s < segs.len() ==> (#[trigger] segs[s]).pixels@.len() == len
}

/// Concatenates the pixel buffers of `segments` in order.
pub fn flatten_pixels(segments: &Vec<Segment>) -> (frame: Vec<Color>)
    ensures
        frame@ == flatten(segments@),
{
    let mut frame: Vec<Color> = Vec::new();
    let mut s: usize = 0;
    while s < segments.len()
        invariant
            s <= segments@.len(),
            frame@ == flatten(segments@.subrange(0, s as int)),
        decreases segments@.len() - s,
    {
        let pixels = &segments[s].pixels;
        let ghost start = frame@;
        let mut j: usize = 0;
        while j < pixels.len()
            invariant
                j <= pixels@.len(),
                frame@ == start + pixels@.subrange(0, j as int),
            decreases pixels@.len() - j,
        {
            frame.push(pixels[j]);
            j = j + 1;
            assert(frame@ =~= start + pixels@.subrange(0, j as int));
        }
        assert(segments@.subrange(0, s + 1).drop_last() =~= segments@.subrange(0, s as int));
        assert(pixels@.subrange(0, pixels@.len() as int) =~= pixels@);
        s = s + 1;
    }
    assert(segments@.subrange(0, segments@.len() as int) =~= segments@);
    frame
}

/// Flattening segments of `len` pixels each gives `count * len` pixels, in
/// segment order, each segment's pixels in their own order.
pub proof fn lemma_flatten_layout(segs: Seq<Segment>, len: nat)
    requires
        uniform(segs, len),
    ensures
        flatten(segs).len() == segs.len() * len,
        forall|s: int, j: int|
            0 <= s < segs.len() && 0 <= j < len ==> flatten(segs)[s * len + j]
                == #[trigger] segs[s].pixels@[j],
    decreases segs.len(),
{
    if segs.len() > 0 {
        let init = segs.drop_last();
        assert(uniform(init, len)) by {
            assert forall|s: int| 0 <= s < init.len() implies (#[trigger] init[s]).pixels@.len()
                == len by {
                assert(init[s] == segs[s]);
            }
        }
        lemma_flatten_layout(init, len);
        let c = init.len();
        assert(segs.last() == segs[c as int]);
        assert(c * len + len == segs.len() * len) by (nonlinear_arith)
            requires segs.len() == c + 1;
        assert forall|s: int, j: int|
            0 <= s < segs.len() && 0 <= j < len implies flatten(segs)[s * len + j]
                == #[trigger] segs[s].pixels@[j] by {
            if s < c {
                assert(s * len + j < c * len) by (nonlinear_arith)
                    requires s < c, j < len, s >= 0;
                assert(s * len + j >= 0) by (nonlinear_arith)
                    requires s >= 0, j >= 0;
                assert(init[s] == segs[s]);
            } else {
                assert(s * len + j == c * len + j) by (nonlinear_arith)
                    requires s == c;
            }
        }
    }
}

impl Light {
    pub open spec fn wf(&self) -> bool {
        &&& self.rate > 0
        &&& uniform(self.segments@, self.pixels_per_segment as nat)
    }

    /// A fixture of `segment_count` segments of `pixels_per_segment` pixels
    /// each, all background and without particles.
    pub fn new(
        name: String,
        id: String,
        segment_count: usize,
        pixels_per_segment: usize,
        lambda: u8,
        decay: u8,
        rate: u8,
    ) -> (light: Light)
        requires
            rate > 0,
        ensures
            light.wf(),
            light.name == name,
            light.id == id,
            light.brightness == 0,
            light.lambda == lambda,
            light.decay == decay,
            light.rate == rate,
            light.pixels_per_segment == pixels_per_segment,
            light.segments@.len() == segment_count,
            forall|s: int|
                0 <= s < segment_count ==> (#[trigger] light.segments@[s]).particles@.len() == 0
                    && light.segments@[s].pixels@ == Seq::new(
                    pixels_per_segment as nat,
                    |i: int| crate::color::background(),
                ),
    {
        let mut segments: Vec<Segment> = Vec::new();
        let mut s: usize = 0;
        while s < segment_count
            invariant
                s <= segment_count,
                segments@.len() == s,
                forall|k: int|
                    0 <= k < s ==> (#[trigger] segments@[k]).particles@.len() == 0
                        && segments@[k].pixels@ == Seq::new(
                        pixels_per_segment as nat,
                        |i: int| crate::color::background(),
                    ),
            decreases segment_count - s,
        {
            segments.push(Segment::new(pixels_per_segment));
            s = s + 1;
        }
        Light { name, id, brightness: 0, lambda, decay, rate, pixels_per_segment, segments }
    }

    /// Milliseconds between ticks at the current rate: `1000 / rate`.
    pub fn tick_interval_ms(&self) -> (ms: u64)
        requires
            self.wf(),
        ensures
            ms == 1000int / (self.rate as int),
    {
        1000 / self.rate as u64
    }

    /// Runs tick `n` on every segment, segment `s` with `draws[s]`, and
    /// returns all pixels, segment after segment.
    pub fn tick(&mut self, n: u64, draws: &Vec<SpawnDraw>) -> (frame: Vec<Color>)
        requires
            old(self).wf(),
            draws@.len() == old(self).segments@.len(),
        ensures
            final(self).wf(),
            final(self).name == old(self).name,
            final(self).id == old(self).id,
            final(self).brightness == old(self).brightness,
            final(self).lambda == old(self).lambda,
            final(self).decay == old(self).decay,
            final(self).rate == old(self).rate,
            final(self).pixels_per_segment == old(self).pixels_per_segment,
            final(self).segments@.len() == old(self).segments@.len(),
            forall|s: int|
                0 <= s < draws@.len() ==> (#[trigger] final(self).segments@[s]).particles@
                    == spawned(
                    old(self).segments@[s].particles@,
                    n,
                    draws@[s].sample,
                    draws@[s].color,
                ) && final(self).segments@[s].pixels@ == next_pixels(
                    old(self).segments@[s].pixels@,
                    final(self).segments@[s].particles@,
                    n,
                    old(self).decay,
                ),
            frame@ == flatten(final(self).segments@),
    {
        let decay = self.decay;
        let count = self.segments.len();
        let mut s: usize = 0;
        while s < count
            invariant
                s <= count,
                count == old(self).segments@.len(),
                draws@.len() == count,
                decay == old(self).decay,
                self.name == old(self).name,
                self.id == old(self).id,
                self.brightness == old(self).brightness,
                self.lambda == old(self).lambda,
                self.decay == old(self).decay,
                self.rate == old(self).rate,
                self.pixels_per_segment == old(self).pixels_per_segment,
                self.segments@.len() == count,
                old(self).wf(),
                forall|k: int|
                    0 <= k < s ==> (#[trigger] self.segments@[k]).particles@ == spawned(
                        old(self).segments@[k].particles@,
                        n,
                        draws@[k].sample,
                        draws@[k].color,
                    ) && self.segments@[k].pixels@ == next_pixels(
                        old(self).segments@[k].pixels@,
                        self.segments@[k].particles@,
                        n,
                        decay,
                    ),
                forall|k: int| s <= k < count ==> #[trigger] self.segments@[k] == old(self).segments@[k],
            decreases count - s,
        {
            let draw = draws[s];
            self.segments[s].step(n, draw.sample, draw.color, decay);
            s = s + 1;
        }
        assert(uniform(self.segments@, self.pixels_per_segment as nat)) by {
            assert forall|k: int| 0 <= k < count implies (#[trigger] self.segments@[k]).pixels@.len()
                == self.pixels_per_segment by {
                assert(old(self).segments@[k].pixels@.len() == self.pixels_per_segment);
            }
        }
        flatten_pixels(&self.segments)
    }
}

} // verus!
