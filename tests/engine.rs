use mote_lights::color::Color;
use mote_lights::frame::{to_array, to_rgb};
use mote_lights::light::{flatten_pixels, Light, SpawnDraw};
use mote_lights::params::{param_from_name, parse_u8, Param, UpdateError};
use mote_lights::particle::{make_mask, Particle};
use mote_lights::segment::{spawns, Segment};

fn bg() -> Color {
    Color::background()
}

fn light(segments: usize, pixels: usize, lambda: u8, decay: u8, rate: u8) -> Light {
    Light::new(
        "bedroom lights".to_string(),
        "bedroom/ceiling".to_string(),
        segments,
        pixels,
        lambda,
        decay,
        rate,
    )
}

#[test]
fn screen_with_background_is_identity() {
    for c in [Color::new(0, 0, 0), Color::new(1000, 40000, 65535), Color::new(65535, 1, 7)] {
        assert_eq!(c.screen(bg()), c);
        assert_eq!(bg().screen(c), c);
    }
}

#[test]
fn screen_exact_values() {
    let half = Color::new(32768, 32768, 32768);
    assert_eq!(half.screen(half), Color::new(49152, 49152, 49152));
    let full = Color::new(65535, 65535, 65535);
    assert_eq!(half.screen(full), full);
    let a = Color::new(100, 20000, 0);
    let b = Color::new(5000, 300, 65535);
    assert_eq!(a.screen(b), b.screen(a));
}

#[test]
fn mix_exact_values() {
    let full = Color::new(65535, 65535, 65535);
    assert_eq!(full.mix(bg(), 128), Color::new(32639, 32639, 32639));
    assert_eq!(full.mix(bg(), 0), full);
    assert_eq!(full.mix(bg(), 255), bg());
    assert_eq!(bg().mix(full, 255), full);
}

#[test]
fn fading_converges_to_background() {
    let start = Color::new(65535, 1234, 9);
    let mut c = start;
    let mut steps = 0;
    while c != bg() {
        let next = c.mix(bg(), 1);
        assert!(next.red <= c.red && next.green <= c.green && next.blue <= c.blue);
        assert_ne!(next, c);
        c = next;
        steps += 1;
        assert!(steps <= 65535);
    }
    let mut same = start;
    for _ in 0..100 {
        same = same.mix(bg(), 0);
    }
    assert_eq!(same, start);
}

#[test]
fn parse_accepts_bytes_only() {
    assert_eq!(parse_u8(b"0"), Some(0));
    assert_eq!(parse_u8(b"255"), Some(255));
    assert_eq!(parse_u8(b"+7"), Some(7));
    assert_eq!(parse_u8(b"007"), Some(7));
    assert_eq!(parse_u8(b"256"), None);
    assert_eq!(parse_u8(b"300"), None);
    assert_eq!(parse_u8(b"99999999999"), None);
    assert_eq!(parse_u8(b""), None);
    assert_eq!(parse_u8(b"+"), None);
    assert_eq!(parse_u8(b"12a"), None);
    assert_eq!(parse_u8(b"-1"), None);
    assert_eq!(parse_u8(b" 1"), None);
}

#[test]
fn parameter_names() {
    assert_eq!(param_from_name("lambda"), Some(Param::Lambda));
    assert_eq!(param_from_name("decay"), Some(Param::Decay));
    assert_eq!(param_from_name("rate"), Some(Param::Rate));
    assert_eq!(param_from_name("brightness"), None);
}

#[test]
fn rate_update_out_of_range_is_rejected() {
    let mut l = light(4, 16, 128, 128, 128);
    assert_eq!(l.update("rate", b"300"), Err(UpdateError::Malformed));
    assert_eq!(l.rate, 128);
}

#[test]
fn updates_apply_and_refuse() {
    let mut l = light(4, 16, 128, 128, 128);
    assert_eq!(l.update("lambda", b"42"), Ok(Some(Param::Lambda)));
    assert_eq!(l.lambda, 42);
    assert_eq!(l.update("decay", b"7"), Ok(Some(Param::Decay)));
    assert_eq!(l.decay, 7);
    assert_eq!(l.update("rate", b"20"), Ok(Some(Param::Rate)));
    assert_eq!(l.rate, 20);
    assert_eq!(l.update("rate", b"0"), Err(UpdateError::ZeroRate));
    assert_eq!(l.rate, 20);
    assert_eq!(l.update("decay", b"ten"), Err(UpdateError::Malformed));
    assert_eq!(l.decay, 7);
    assert_eq!(l.update("colour", b"5"), Ok(None));
    assert_eq!((l.lambda, l.decay, l.rate), (42, 7, 20));
}

#[test]
fn tick_interval_follows_rate() {
    assert_eq!(light(1, 4, 0, 0, 128).tick_interval_ms(), 7);
    assert_eq!(light(1, 4, 0, 0, 1).tick_interval_ms(), 1000);
    assert_eq!(light(1, 4, 0, 0, 255).tick_interval_ms(), 3);
}

#[test]
fn spawn_needs_a_draw_above_one() {
    assert!(!spawns(0));
    assert!(!spawns(1));
    assert!(spawns(2));
    assert!(spawns(u64::MAX));
}

#[test]
fn no_spawns_with_full_decay_stay_background() {
    let mut l = light(1, 4, 0, 255, 128);
    let c = Color::new(65535, 0, 0);
    for n in 0..50u64 {
        let frame = l.tick(n, &vec![SpawnDraw { sample: 0, color: c }]);
        assert_eq!(frame, vec![bg(); 4]);
        assert!(l.segments[0].particles.is_empty());
    }
    let frame = l.tick(50, &vec![SpawnDraw { sample: 3, color: c }]);
    assert_eq!(frame, vec![bg(); 4]);
    assert_eq!(l.segments[0].particles.len(), 1);
}

#[test]
fn single_particle_moves_half_a_pixel_per_tick() {
    let c = Color::new(65535, 32768, 0);
    let ps = vec![Particle::new(0, c)];
    let mask = make_mask(&ps, 0, 10);
    assert_eq!(mask.len(), 10);
    assert_eq!(mask[0], c);
    for i in 1..10 {
        assert_eq!(mask[i], bg());
    }
    let mask = make_mask(&ps, 2, 10);
    assert_eq!(mask[1], c);
    assert_eq!(mask[0], bg());
    let mask = make_mask(&ps, 3, 10);
    assert_eq!(mask[1], c);
    let mask = make_mask(&ps, 20, 10);
    assert_eq!(mask, vec![bg(); 10]);
}

#[test]
fn particle_not_drawn_before_creation() {
    let c = Color::new(1, 2, 3);
    let ps = vec![Particle::new(5, c)];
    for n in 0..5u64 {
        assert_eq!(make_mask(&ps, n, 10), vec![bg(); 10]);
    }
    assert_eq!(make_mask(&ps, 5, 10)[0], c);
    assert_eq!(make_mask(&ps, 9, 10)[2], c);
}

#[test]
fn later_particle_wins_shared_pixel() {
    let a = Color::new(65535, 0, 0);
    let b = Color::new(0, 0, 65535);
    let ps = vec![Particle::new(3, a), Particle::new(3, b)];
    for n in 3..20u64 {
        let mask = make_mask(&ps, n, 10);
        assert_eq!(mask[((n - 3) / 2) as usize], b);
    }
}

#[test]
fn segment_step_composites_then_fades() {
    let mut s = Segment::new(4);
    let c = Color::new(65535, 65535, 65535);
    s.step(0, 2, c, 0);
    assert_eq!(s.particles, vec![Particle::new(0, c)]);
    assert_eq!(s.pixels, vec![c, bg(), bg(), bg()]);
    s.step(1, 0, c, 128);
    assert_eq!(s.particles.len(), 1);
    let half = Color::new(32639, 32639, 32639);
    assert_eq!(s.pixels, vec![half, bg(), bg(), bg()]);
    s.step(2, 1, c, 0);
    assert_eq!(s.pixels, vec![half, c, bg(), bg()]);
}

#[test]
fn flatten_keeps_segment_order() {
    let mut l = light(4, 12, 0, 0, 1);
    for s in 0..4 {
        for j in 0..12 {
            l.segments[s].pixels[j] = Color::new(s as u16, j as u16, 0);
        }
    }
    let flat = flatten_pixels(&l.segments);
    assert_eq!(flat.len(), 48);
    for s in 0..4 {
        for j in 0..12 {
            assert_eq!(flat[s * 12 + j], Color::new(s as u16, j as u16, 0));
        }
    }
}

#[test]
fn frame_is_padded_and_truncated() {
    assert_eq!(to_rgb(&Color::new(65535, 32768, 257)), rgb::RGB8 { r: 255, g: 127, b: 1 });
    assert_eq!(to_rgb(&bg()), rgb::RGB8 { r: 0, g: 0, b: 0 });
    let pixels = vec![Color::new(65535, 0, 0), Color::new(0, 65535, 0)];
    let frame = to_array(&pixels, 4);
    assert_eq!(
        frame,
        vec![
            rgb::RGB8 { r: 255, g: 0, b: 0 },
            rgb::RGB8 { r: 0, g: 255, b: 0 },
            rgb::RGB8 { r: 0, g: 0, b: 0 },
            rgb::RGB8 { r: 0, g: 0, b: 0 },
        ]
    );
    assert_eq!(to_array(&pixels, 1), vec![rgb::RGB8 { r: 255, g: 0, b: 0 }]);
}
