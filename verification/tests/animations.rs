use musiclight::animation::{Color, ColorBuffer};
use musiclight::fixed::FP_ONE;
use musiclight::signal_processing::SignalProcessing;
use musiclight::tracker::{EnergyTracker, RacerTracker};
use musiclight::particles::{scatter_energy, Particles};
use musiclight::sparkles::{Spark, Sparkles};
use musiclight::racers::{Racer, Racers};

fn analyzer_with_bass_impulse() -> SignalProcessing {
    let mut sp = SignalProcessing::new(512, 48000);
    let mut mags = vec![0u64; 257];
    // the bass band covers bins 0..=4 and shares bin 4 with mid, so the
    // impulse stays strictly below it; the band mean still exceeds the
    // decayed ceiling, which snaps up and normalizes the drive to one
    for i in 0..4 {
        mags[i] = 100_000;
    }
    sp.update_fft(&mags).unwrap();
    sp
}

fn silent_analyzer() -> SignalProcessing {
    SignalProcessing::new(512, 48000)
}

#[test]
fn tracker_ceiling_snaps_up_and_decays() {
    let mut t = EnergyTracker::new(65523, 7, 9);
    let cur = Color { r: 2 * FP_ONE, g: 0, b: 0, w: 0 };
    let norm = t.update(&cur);
    // the reading exceeded the decayed ceiling, so the ceiling snapped up
    assert_eq!(t.max_energy.r, 2 * FP_ONE);
    // a reading at the ceiling normalizes to exactly one
    assert_eq!(norm.r, FP_ONE);
    // a zero reading normalizes to zero
    assert_eq!(norm.g, 0);

    let zero = Color { r: 0, g: 0, b: 0, w: 0 };
    t.update(&zero);
    // one cooldown step: 131072 * 65523 / 65536
    assert_eq!(t.max_energy.r, 131046);
}

#[test]
fn tracker_ceiling_bounds_hold_over_many_ticks() {
    let mut t = EnergyTracker::new(65523, 6, 9);
    let readings = [0u64, 5, 100000, 3, 100000, 99999, 0, 7777777, 12];
    for &r in readings.iter() {
        let before = t.max_energy.r;
        t.update(&Color { r, g: r / 2, b: 0, w: r });
        // never below the current reading
        assert!(t.max_energy.r >= r);
        // never above the larger of old ceiling and reading
        assert!(t.max_energy.r <= if before > r { before } else { r });
    }
}

#[test]
fn racer_tracker_zero_input_settles() {
    let mut t = RacerTracker::new(65523, 13107, 131, 6, 9, 19661);
    let zero = Color { r: 0, g: 0, b: 0, w: 0 };
    let drive = t.update(&zero);
    assert_eq!(t.filtered_energy.r, 0);
    assert_eq!(t.max_energy.r, 65523);
    assert_eq!(t.min_energy.r, 0);
    assert_eq!(drive.r, 0);
    assert_eq!(t.filtered_brightness.r, 0);
}

#[test]
fn racer_tracker_floor_stays_below_reading() {
    let mut t = RacerTracker::new(65523, 13107, 131, 6, 9, 19661);
    let readings = [FP_ONE, 0u64, 500000, 20, 500000];
    for &r in readings.iter() {
        let drive = t.update(&Color { r, g: 0, b: 0, w: r });
        assert!(t.min_energy.r <= t.filtered_energy.r);
        assert!(t.filtered_energy.r <= t.max_energy.r);
        assert!(drive.r <= FP_ONE);
        assert!(t.filtered_brightness.r <= FP_ONE);
    }
}

#[test]
fn scatter_deposits_exactly_the_budget() {
    let mut buf = ColorBuffer::new(1, 10);
    let deposited = scatter_energy(&mut buf, 0, FP_ONE, 1000, 327680);
    assert_eq!(deposited, 1000);
    let mut sum = 0u64;
    for i in 0..10 {
        let c = buf.get_flat(i);
        sum += c.r;
        // other channels untouched
        assert_eq!(c.g, 0);
        assert_eq!(c.b, 0);
        assert_eq!(c.w, 0);
    }
    assert_eq!(sum, 1000);
}

#[test]
fn particles_bass_impulse_deposits_the_activation_budget() {
    let sp = analyzer_with_bass_impulse();
    let mut p = Particles::new(1, 322);
    p.periodic(&sp).unwrap();
    // drive normalizes to one, so the red deposit budget is exactly
    // avg_leds_activated * total: 1310 * 322
    let mut red_sum = 0u64;
    let mut lit = 0usize;
    for cell in p.energy.cells.iter() {
        red_sum += cell.r;
        if cell.r > 0 {
            lit += 1;
        }
        assert_eq!(cell.g, 0);
        assert_eq!(cell.b, 0);
        assert_eq!(cell.w, 0);
    }
    assert_eq!(red_sum, 1310 * 322);
    // condensation: the deposits cluster on few LEDs
    assert!(lit <= 161);
    // rendered output is clamped
    for cell in p.colorlists.cells.iter() {
        assert!(cell.r <= FP_ONE && cell.g <= FP_ONE && cell.b <= FP_ONE && cell.w <= FP_ONE);
    }
}

#[test]
fn particles_silence_fades_to_black() {
    let sp = silent_analyzer();
    let mut p = Particles::new(1, 8);
    p.init().unwrap();
    p.periodic(&sp).unwrap();
    for cell in p.energy.cells.iter() {
        assert_eq!(cell.r, 0);
        assert_eq!(cell.w, 0);
    }
}

#[test]
fn spark_expires_after_ceiling_of_brightness_over_step() {
    // b0 = 65536, step = 30000: ceil(b0/step) = 3 ticks
    let mut s = Spark::new(0, FP_ONE, Color { r: 0, g: FP_ONE, b: 0, w: 0 }, 0, 5 * FP_ONE as i64);
    s.update(30000, 100);
    assert!(!s.has_expired());
    s.update(30000, 100);
    assert!(!s.has_expired());
    s.update(30000, 100);
    assert!(s.has_expired());
}

#[test]
fn spark_expires_on_leaving_the_strip() {
    let mut s = Spark::new(
        2 * FP_ONE as i64,
        FP_ONE,
        Color { r: 0, g: 0, b: FP_ONE, w: 0 },
        0,
        9 * FP_ONE as i64,
    );
    // a 10-LED strip: position 11 is outside [-1, 10)
    s.update(1, 10);
    assert!(s.has_expired());
}

#[test]
fn spark_render_interpolates_between_bracketing_leds() {
    let mut buf = ColorBuffer::new(1, 4);
    // position 1.25: linear interpolation puts three quarters of the
    // brightness on the floor slot and one quarter on the ceiling slot
    let s = Spark::new(0, FP_ONE, Color { r: 0, g: FP_ONE, b: 0, w: 0 }, 0, 81920);
    s.render(&mut buf);
    assert_eq!(buf.get_flat(1).g, 49152);
    assert_eq!(buf.get_flat(2).g, 16384);
    assert_eq!(buf.get_flat(0).g, 0);
    assert_eq!(buf.get_flat(3).g, 0);
    // the two weights always sum to the full brightness
    assert_eq!(buf.get_flat(1).g + buf.get_flat(2).g, FP_ONE);
}

#[test]
fn sparkles_spawn_three_per_tick_and_compact_expired() {
    let sp = silent_analyzer();
    let mut a = Sparkles::new(1, 322, 48000, 256);
    a.init().unwrap();
    a.periodic(&sp).unwrap();
    // no prior sparks; exactly the three fresh spawns remain
    assert_eq!(a.sparks.len(), 3);
    a.periodic(&sp).unwrap();
    // the zero-brightness spawns expired on their first step and were
    // dropped from the front; three fresh ones took their place
    assert_eq!(a.sparks.len(), 3);
    for cell in a.colorlists.cells.iter() {
        assert!(cell.r <= FP_ONE && cell.g <= FP_ONE && cell.b <= FP_ONE && cell.w <= FP_ONE);
    }
}

#[test]
fn racer_reflects_at_the_top_boundary() {
    let maxpos: i64 = 322 * FP_ONE as i64;
    let mut r = Racer::new(0, 10000, 0, FP_ONE, Color { r: FP_ONE, g: 0, b: 0, w: 0 },
        maxpos - 1, 1);
    r.update(FP_ONE, 0, 0, maxpos);
    // pre-reflection position p = maxpos - 1 + 10000; after: 2*maxpos - p
    assert_eq!(r.direction, -1);
    assert_eq!(r.pos, maxpos - (10000 - 1));
}

#[test]
fn racer_reflects_at_the_zero_boundary() {
    let maxpos: i64 = 322 * FP_ONE as i64;
    let mut r = Racer::new(0, 10000, 0, FP_ONE, Color { r: FP_ONE, g: 0, b: 0, w: 0 }, 1, -1);
    r.update(FP_ONE, 0, 0, maxpos);
    // pre-reflection position p = 1 - 10000; after: -p, moving up again
    assert_eq!(r.direction, 1);
    assert_eq!(r.pos, 9999);
}

#[test]
fn racer_render_uses_serpentine_addressing() {
    let mut buf = ColorBuffer::new(2, 4);
    // global LED 5 lies on strip 1, which runs backwards: local index 2
    let mut r = Racer::new(0, 100, 0, FP_ONE, Color { r: FP_ONE, g: 0, b: 0, w: 0 },
        5 * FP_ONE as i64, 1);
    r.brightness = FP_ONE;
    r.render(&mut buf);
    assert_eq!(buf.get_flat(1 * 4 + 2).r, FP_ONE);
    for i in 0..8 {
        if i != 6 {
            assert_eq!(buf.get_flat(i).r, 0);
        }
    }
}

#[test]
fn racers_init_builds_three_pools_inside_the_address_space() {
    let mut a = Racers::new(1, 322, 48000, 256);
    a.init().unwrap();
    assert_eq!(a.racers_r.len(), 10);
    assert_eq!(a.racers_g.len(), 10);
    assert_eq!(a.racers_b.len(), 10);
    let maxpos = 322 * FP_ONE as i64;
    for r in a.racers_r.iter().chain(a.racers_g.iter()).chain(a.racers_b.iter()) {
        assert!(0 <= r.pos && r.pos < maxpos);
        assert!(r.direction == 1 || r.direction == -1);
        assert!(r.min_speed <= r.max_speed);
        assert_eq!(r.brightness, r.min_brightness);
    }
}

#[test]
fn racers_tick_keeps_pools_and_clamps_the_grid() {
    let sp = silent_analyzer();
    let mut a = Racers::new(1, 322, 48000, 256);
    a.init().unwrap();
    a.periodic(&sp).unwrap();
    assert_eq!(a.racers_r.len(), 10);
    assert_eq!(a.racers_g.len(), 10);
    assert_eq!(a.racers_b.len(), 10);
    for cell in a.colorlists.cells.iter() {
        assert!(cell.r <= FP_ONE && cell.g <= FP_ONE && cell.b <= FP_ONE && cell.w <= FP_ONE);
    }
}

#[test]
fn spark_speeds_and_fade_follow_the_tick_rate() {
    // 322 LEDs per strip, 48 kHz, 256 samples per update
    let a = Sparkles::new(1, 322, 48000, 256);
    // one strip length per second at the mid speed
    assert_eq!(a.vspeed_mids, 112547);
    // 0.8 and 0.5 strip lengths per second
    assert_eq!(a.vspeed_highs, 90037);
    assert_eq!(a.vspeed_xhighs, 56273);
    // 2.5 brightness units per second
    assert_eq!(a.spark_fade_step, 873);
}

#[test]
fn racer_speed_range_follows_the_tick_rate() {
    let a = Racers::new(1, 322, 48000, 256);
    // 0.5 and 80 LEDs per second across the whole address space
    assert_eq!(a.min_speed_base, 174);
    assert_eq!(a.max_speed_base, 27962);
    assert_eq!(a.num_racers, 10);
}
