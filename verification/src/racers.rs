//! Traveling reflecting racers: fixed pools of emitters that sweep the
//! full concatenated address space at an energy-driven speed, reflect at
//! both ends, and are rendered with serpentine addressing so motion looks
//! continuous across strip boundaries.

use vstd::prelude::*;
use crate::animation::{
    AnimationError, Color, ColorBuffer, chan, color_le, color_scaled, color_limited,
    color_add_sat, all_limited, MAX_LEDS_TOTAL,
};
use crate::fixed::{
    FP_ONE, fp_mul, fp_mul_spec, lemma_mul_le, lemma_fp_mul_unit, lemma_fp_mul_le_rhs,
};
use crate::tracker::{
    RacerTracker, snap_up_spec, snap_down_spec, relax_spec, lowpass_spec, range_normalize_spec,
};
use crate::signal_processing::{SignalProcessing, FREQ_AIR_HI};
use crate::rng::{random_below, random_fraction, random_i8};

verus! {

/// Ceiling cooldown factor per tick (about 0.9998).
pub const RACERS_COOLDOWN: u64 = 65523;

/// Normalization exponent for R, G and B, in quarter units (1.5).
pub const RACERS_RGB_EXP_Q: u8 = 6;

/// Normalization exponent for the air channel, in quarter units (2.25).
pub const RACERS_W_EXP_Q: u8 = 9;

/// Extra attenuation of the air-driven flare (0.3).
pub const RACERS_W_SCALE: u64 = 19661;

/// Fast low-pass coefficient for the motion drive (0.2).
pub const RACERS_ENERGY_ALPHA: u64 = 13107;

/// Slow low-pass coefficient for the perceived brightness (about 0.002).
pub const RACERS_BRIGHTNESS_ALPHA: u64 = 131;

/// Minimum brightness of a racer (about 0.01).
pub const RACER_MIN_BRIGHTNESS: u64 = 655;

/// A racer: a point of light sweeping the whole concatenated strip space.
#[derive(Clone, Copy, PartialEq, Eq, Structural, Debug)]
pub struct Racer {
    pub min_speed: u64,
    pub max_speed: u64,
    pub direction: i8,
    pub min_brightness: u64,
    pub max_brightness: u64,
    pub color: Color,
    pub pos: i64,
    pub brightness: u64,
    pub flare_brightness: u64,
}

/// A racer fits the address space of total length `maxpos` (fixed point).
pub open spec fn racer_wf(r: Racer, maxpos: int) -> bool {
    &&& 0 <= r.pos <= maxpos
    &&& r.min_speed <= r.max_speed
    &&& (r.max_speed as int) < maxpos
    &&& (r.direction == 1 || r.direction == -1)
    &&& r.min_brightness <= r.max_brightness <= FP_ONE
    &&& r.brightness <= FP_ONE
    &&& r.flare_brightness <= FP_ONE
    &&& color_le(r.color, FP_ONE as int)
}

/// One tick of a racer: move at `min + speed * (max - min)` in its
/// direction and reflect at either end of the address space; take over the
/// given rendering brightness and flare.
pub open spec fn racer_step(r: Racer, speed: u64, brightness: u64, flare: u64, maxpos: int)
    -> Racer {
    let cur_speed = r.min_speed + fp_mul_spec(speed as int, r.max_speed - r.min_speed);
    let moved = r.pos + (r.direction as int) * cur_speed;
    let (dir2, pos2): (i8, int) = if moved >= maxpos {
        (-1 as i8, 2 * maxpos - moved)
    } else if moved <= 0 {
        (1 as i8, -moved)
    } else {
        (r.direction, moved)
    };
    Racer {
        min_speed: r.min_speed,
        max_speed: r.max_speed,
        direction: dir2,
        min_brightness: r.min_brightness,
        max_brightness: r.max_brightness,
        color: r.color,
        pos: pos2 as i64,
        brightness,
        flare_brightness: flare,
    }
}

/// Racer reflection: a step that carries the position past the top end
/// of the address space leaves it mirrored at `2 * length - p`, moving
/// down; one that carries it at or below zero leaves it at `-p`, moving
/// up; in between, the position simply advances and the direction is
/// kept.
pub proof fn lemma_racer_reflection(r: Racer, speed: u64, brightness: u64, flare: u64, maxpos: int)
    requires
        racer_wf(r, maxpos),
        1 <= maxpos <= 0x10_0000_0000,
        speed <= FP_ONE,
    ensures
        ({
            let moved = r.pos + (r.direction as int) * (r.min_speed + fp_mul_spec(
                speed as int,
                r.max_speed - r.min_speed,
            ));
            let stepped = racer_step(r, speed, brightness, flare, maxpos);
            &&& (moved >= maxpos ==> stepped.pos == 2 * maxpos - moved && stepped.direction == -1)
            &&& (moved <= 0 && moved < maxpos ==> stepped.pos == -moved && stepped.direction == 1)
            &&& (0 < moved < maxpos ==> stepped.pos == moved && stepped.direction == r.direction)
        }),
{
    let cur = r.min_speed + fp_mul_spec(speed as int, r.max_speed - r.min_speed);
    let moved = r.pos + (r.direction as int) * cur;
    lemma_fp_mul_le_rhs(speed as int, (r.max_speed - r.min_speed) as int);
    assert((r.direction as int) * cur == cur || (r.direction as int) * cur == -cur)
        by (nonlinear_arith)
        requires (r.direction as int == 1 || r.direction as int == -1);
    assert(-(maxpos as int) <= moved <= 2 * maxpos);
}

/// Serpentine addressing: strip index of global LED `p`, and the local
/// index, reversed on odd strips.
pub open spec fn serp_strip(p: int, lps: int) -> int {
    p / lps
}

pub open spec fn serp_led(p: int, lps: int) -> int {
    if (p / lps) % 2 == 1 {
        lps - (p % lps) - 1
    } else {
        p % lps
    }
}

/// A racer blended additively into the grid via serpentine addressing:
/// the floor slot weighted by the complementary fractional offset, the
/// ceiling slot by the offset, both times the effective brightness, with
/// the shared flare added to the white component first.
pub open spec fn blend_racer(cells: Seq<Color>, r: Racer, strips: int, lps: int) -> Seq<Color> {
    let total = strips * lps;
    let bright = r.min_brightness + fp_mul_spec(
        r.brightness as int,
        r.max_brightness - r.min_brightness,
    );
    let flared = Color {
        r: r.color.r,
        g: r.color.g,
        b: r.color.b,
        w: (r.color.w + r.flare_brightness) as u64,
    };
    let l1 = (r.pos as int) / (FP_ONE as int);
    let fract = r.pos - l1 * (FP_ONE as int);
    let l2 = if fract == 0 {
        l1
    } else {
        l1 + 1
    };
    let c1 = color_scaled(flared, fp_mul_spec(FP_ONE as int - fract, bright));
    let c2 = color_scaled(flared, fp_mul_spec(fract, bright));
    let cells1 = if 0 <= l1 < total {
        let i1 = serp_strip(l1, lps) * lps + serp_led(l1, lps);
        cells.update(i1, color_add_sat(cells[i1], c1))
    } else {
        cells
    };
    let cells2 = if 0 <= l2 < total {
        let i2 = serp_strip(l2, lps) * lps + serp_led(l2, lps);
        cells1.update(i2, color_add_sat(cells1[i2], c2))
    } else {
        cells1
    };
    cells2
}

/// A whole pool of racers blended in order.
pub open spec fn blend_racers(cells: Seq<Color>, pool: Seq<Racer>, strips: int, lps: int)
    -> Seq<Color>
    decreases pool.len(),
{
    if pool.len() == 0 {
        cells
    } else {
        blend_racers(blend_racer(cells, pool[0], strips, lps), pool.drop_first(), strips, lps)
    }
}

pub proof fn lemma_blend_racers_take(cells: Seq<Color>, pool: Seq<Racer>, strips: int, lps: int, k: int)
    requires
        0 <= k < pool.len(),
    ensures
        blend_racers(cells, pool.take(k + 1), strips, lps) == blend_racer(
            blend_racers(cells, pool.take(k), strips, lps),
            pool[k],
            strips,
            lps,
        ),
    decreases k,
{
    if k == 0 {
        assert(pool.take(1).len() == 1);
        assert(pool.take(0).len() == 0);
        assert(pool.take(1).drop_first() =~= Seq::<Racer>::empty());
        assert(pool.take(0) =~= Seq::<Racer>::empty());
        assert(pool.take(1)[0] == pool[0]);
        assert(blend_racers(cells, pool.take(0), strips, lps) == cells);
        assert(blend_racers(cells, pool.take(1), strips, lps) == blend_racers(
            blend_racer(cells, pool[0], strips, lps),
            pool.take(1).drop_first(),
            strips,
            lps,
        ));
    } else {
        assert(pool.take(k + 1)[0] == pool[0]);
        assert(pool.take(k)[0] == pool[0]);
        assert(pool.take(k + 1).drop_first() =~= pool.drop_first().take(k));
        assert(pool.take(k).drop_first() =~= pool.drop_first().take(k - 1));
        lemma_blend_racers_take(
            blend_racer(cells, pool[0], strips, lps),
            pool.drop_first(),
            strips,
            lps,
            k - 1,
        );
        assert(pool.drop_first()[k - 1] == pool[k]);
        assert(blend_racers(cells, pool.take(k + 1), strips, lps) == blend_racers(
            blend_racer(cells, pool[0], strips, lps),
            pool.drop_first().take(k),
            strips,
            lps,
        ));
        assert(blend_racers(cells, pool.take(k), strips, lps) == blend_racers(
            blend_racer(cells, pool[0], strips, lps),
            pool.drop_first().take(k - 1),
            strips,
            lps,
        ));
    }
}

impl Racer {
    pub fn new(
        min_speed: u64,
        max_speed: u64,
        min_brightness: u64,
        max_brightness: u64,
        color: Color,
        start_pos: i64,
        direction: i8,
    ) -> (r: Racer)
        ensures
            r == (Racer {
                min_speed,
                max_speed,
                direction,
                min_brightness,
                max_brightness,
                color,
                pos: start_pos,
                brightness: min_brightness,
                flare_brightness: 0u64,
            }),
    {
        Racer {
            min_speed,
            max_speed,
            direction,
            min_brightness,
            max_brightness,
            color,
            pos: start_pos,
            brightness: min_brightness,
            flare_brightness: 0,
        }
    }

    /// Map a global integer LED index to (strip, local index) with
    /// serpentine addressing: odd strips run backwards.
    fn pos2ledstrip(pos: usize, leds_per_strip: usize) -> (out: (usize, usize))
        requires
            1 <= leds_per_strip,
        ensures
            out.0 == serp_strip(pos as int, leds_per_strip as int),
            out.1 == serp_led(pos as int, leds_per_strip as int),
            out.1 < leds_per_strip,
    {
        let strip = pos / leds_per_strip;
        let mut led = pos % leds_per_strip;
        if strip % 2 == 1 {
            led = leds_per_strip - led - 1;
        }
        (strip, led)
    }

    /// One tick: move along the address space at the drive-dependent
    /// speed and reflect the direction at either end (reflection places
    /// the racer at `2 * length - p` past the top, `-p` below zero).
    pub fn update(&mut self, speed: u64, brightness: u64, flare_brightness: u64, maxpos: i64)
        requires
            racer_wf(*old(self), maxpos as int),
            1 <= maxpos <= 0x10_0000_0000,
            speed <= FP_ONE,
            brightness <= FP_ONE,
            flare_brightness <= FP_ONE,
        ensures
            *final(self) == racer_step(*old(self), speed, brightness, flare_brightness,
                maxpos as int),
            racer_wf(*final(self), maxpos as int),
    {
        proof {
            lemma_mul_le(
                speed as int,
                (self.max_speed - self.min_speed) as int,
                FP_ONE as int,
                maxpos as int,
            );
            lemma_fp_mul_le_rhs(speed as int, (self.max_speed - self.min_speed) as int);
        }
        let cur_speed: i64 = (self.min_speed + fp_mul(speed, self.max_speed - self.min_speed))
            as i64;
        proof {
            assert(0 <= cur_speed && cur_speed as int <= maxpos);
            assert(-0x10_0000_0000 <= (self.direction as int) * (cur_speed as int)
                <= 0x10_0000_0000) by (nonlinear_arith)
                requires
                    (self.direction as int == 1 || self.direction as int == -1),
                    0 <= cur_speed <= 0x10_0000_0000;
        }
        let moved: i64 = self.pos + (self.direction as i64) * cur_speed;
        proof {
            assert((self.direction as int) * (cur_speed as int) == cur_speed as int || (
            self.direction as int) * (cur_speed as int) == -(cur_speed as int))
                by (nonlinear_arith)
                requires (self.direction as int == 1 || self.direction as int == -1);
            assert(-(maxpos as int) < (moved as int) < 2 * (maxpos as int));
        }
        if moved >= maxpos {
            self.direction = -1;
            self.pos = 2 * maxpos - moved;
        } else if moved <= 0 {
            self.direction = 1;
            self.pos = -moved;
        } else {
            self.pos = moved;
        }
        self.brightness = brightness;
        self.flare_brightness = flare_brightness;
    }

    /// Blend this racer additively into the grid at its fractional
    /// position, split over the two bracketing serpentine slots.
    pub fn render(&self, colorlists: &mut ColorBuffer)
        requires
            old(colorlists).wf(),
            racer_wf(*self, old(colorlists).total() * (FP_ONE as int)),
        ensures
            final(colorlists)@ == blend_racer(
                old(colorlists)@,
                *self,
                old(colorlists).strips(),
                old(colorlists).leds(),
            ),
            final(colorlists).strips() == old(colorlists).strips(),
            final(colorlists).leds() == old(colorlists).leds(),
            final(colorlists).wf(),
    {
        let lps = colorlists.leds_per_strip();
        let total = colorlists.len();
        let ghost maxpos = old(colorlists).total() * (FP_ONE as int);
        proof {
            lemma_mul_le(
                self.brightness as int,
                (self.max_brightness - self.min_brightness) as int,
                FP_ONE as int,
                FP_ONE as int,
            );
            lemma_fp_mul_unit(
                self.brightness as int,
                (self.max_brightness - self.min_brightness) as int,
            );
        }
        proof {
            lemma_fp_mul_le_rhs(
                self.brightness as int,
                (self.max_brightness - self.min_brightness) as int,
            );
        }
        let bright = self.min_brightness + fp_mul(
            self.brightness,
            self.max_brightness - self.min_brightness,
        );
        proof {
            assert(bright <= FP_ONE);
        }
        let mut flared = self.color;
        flared.w = flared.w + self.flare_brightness;
        let l1: i64 = self.pos / (FP_ONE as i64);
        let fract: u64 = (self.pos - l1 * (FP_ONE as i64)) as u64;
        proof {
            assert(0 <= l1 && l1 * (FP_ONE as int) <= self.pos && fract < FP_ONE)
                by (nonlinear_arith)
                requires
                    0 <= self.pos,
                    l1 == self.pos as int / (FP_ONE as int),
                    fract == self.pos - l1 * (FP_ONE as int);
            assert(l1 <= total as int) by (nonlinear_arith)
                requires
                    0 <= l1,
                    l1 * (FP_ONE as int) <= self.pos,
                    self.pos <= (total as int) * (FP_ONE as int);
        }
        let l2: i64 = if fract == 0 {
            l1
        } else {
            l1 + 1
        };
        proof {
            assert(l2 <= total as int + 1);
            lemma_mul_le((FP_ONE - fract) as int, bright as int, FP_ONE as int, FP_ONE as int);
            lemma_mul_le(fract as int, bright as int, FP_ONE as int, FP_ONE as int);
            lemma_fp_mul_unit((FP_ONE - fract) as int, bright as int);
            lemma_fp_mul_unit(fract as int, bright as int);
            lemma_mul_le(flared.r as int, FP_ONE as int, 2 * FP_ONE as int, FP_ONE as int);
            lemma_mul_le(flared.g as int, FP_ONE as int, 2 * FP_ONE as int, FP_ONE as int);
            lemma_mul_le(flared.b as int, FP_ONE as int, 2 * FP_ONE as int, FP_ONE as int);
            lemma_mul_le(flared.w as int, FP_ONE as int, 2 * FP_ONE as int, FP_ONE as int);
        }
        let w1 = fp_mul(FP_ONE - fract, bright);
        let w2 = fp_mul(fract, bright);
        proof {
            lemma_mul_le(flared.r as int, w1 as int, 2 * FP_ONE as int, FP_ONE as int);
            lemma_mul_le(flared.g as int, w1 as int, 2 * FP_ONE as int, FP_ONE as int);
            lemma_mul_le(flared.b as int, w1 as int, 2 * FP_ONE as int, FP_ONE as int);
            lemma_mul_le(flared.w as int, w1 as int, 2 * FP_ONE as int, FP_ONE as int);
            lemma_mul_le(flared.r as int, w2 as int, 2 * FP_ONE as int, FP_ONE as int);
            lemma_mul_le(flared.g as int, w2 as int, 2 * FP_ONE as int, FP_ONE as int);
            lemma_mul_le(flared.b as int, w2 as int, 2 * FP_ONE as int, FP_ONE as int);
            lemma_mul_le(flared.w as int, w2 as int, 2 * FP_ONE as int, FP_ONE as int);
        }
        let c1 = flared.scaled_copy(w1);
        let c2 = flared.scaled_copy(w2);
        if l1 >= 0 && (l1 as usize) < total {
            let (strip, led) = Racer::pos2ledstrip(l1 as usize, lps);
            proof {
                assert(serp_strip(l1 as int, lps as int) < colorlists.strips())
                    by (nonlinear_arith)
                    requires
                        1 <= lps,
                        0 <= l1 < colorlists.strips() * (lps as int),
                        serp_strip(l1 as int, lps as int) == (l1 as int) / (lps as int);
                colorlists.lemma_flat_in_range(strip as int, led as int);
            }
            let idx = strip * lps + led;
            colorlists.add_flat(idx, &c1);
        }
        if l2 >= 0 && (l2 as usize) < total {
            let (strip, led) = Racer::pos2ledstrip(l2 as usize, lps);
            proof {
                assert(serp_strip(l2 as int, lps as int) < colorlists.strips())
                    by (nonlinear_arith)
                    requires
                        1 <= lps,
                        0 <= l2 < colorlists.strips() * (lps as int),
                        serp_strip(l2 as int, lps as int) == (l2 as int) / (lps as int);
                colorlists.lemma_flat_in_range(strip as int, led as int);
            }
            let idx = strip * lps + led;
            colorlists.add_flat(idx, &c2);
        }
    }
}


/// The all-black grid of `n` cells.
pub open spec fn zero_cells(n: int) -> Seq<Color> {
    Seq::new(n as nat, |i: int| Color { r: 0u64, g: 0u64, b: 0u64, w: 0u64 })
}

/// A freshly initialized racer: random start across the whole address
/// space, random direction, speeds jittered by a common factor within
/// about five percent of one, at minimum brightness.
pub open spec fn is_fresh_racer(
    r: Racer,
    min0: u64,
    max0: u64,
    maxpos: int,
    color: Color,
) -> bool {
    &&& (exists|sc: int|
        62259 <= sc <= 68813 && r.min_speed == fp_mul_spec(min0 as int, sc) && r.max_speed
            == fp_mul_spec(max0 as int, sc))
    &&& 0 <= r.pos < maxpos
    &&& (r.direction == 1 || r.direction == -1)
    &&& r.min_brightness == RACER_MIN_BRIGHTNESS
    &&& r.max_brightness == FP_ONE
    &&& r.brightness == RACER_MIN_BRIGHTNESS
    &&& r.flare_brightness == 0
    &&& r.color == color
}

/// Every racer of the pool is well formed for the address space.
pub open spec fn pool_wf(pool: Seq<Racer>, maxpos: int) -> bool {
    forall|i: int| 0 <= i < pool.len() ==> racer_wf(#[trigger] pool[i], maxpos)
}

/// One racer with random start position, direction and speed jitter.
fn spawn_racer(min0: u64, max0: u64, total: usize, color: Color) -> (r: Racer)
    requires
        min0 <= max0,
        2 * (max0 as int) < (total as int) * (FP_ONE as int),
        1 <= total <= MAX_LEDS_TOTAL,
        color_le(color, FP_ONE as int),
    ensures
        racer_wf(r, (total as int) * (FP_ONE as int)),
        is_fresh_racer(r, min0, max0, (total as int) * (FP_ONE as int), color),
{
    let whole = random_below(total as u64);
    let fracpart = random_fraction() as u64;
    proof {
        lemma_mul_le(whole as int, FP_ONE as int, (total as int) - 1, FP_ONE as int);
        assert(((total as int) - 1) * (FP_ONE as int) + (FP_ONE as int) == (total as int) * (
        FP_ONE as int)) by (nonlinear_arith);
    }
    let pos: i64 = (whole * FP_ONE + fracpart) as i64;
    let scale = (622592 + random_fraction() as u64) / 10;
    proof {
        lemma_mul_le(max0 as int, scale as int, 0x8_0000_0000, 0x2_0000);
        assert(fp_mul_spec(min0 as int, scale as int) <= fp_mul_spec(max0 as int, scale as int))
            by (nonlinear_arith)
            requires 0 <= min0 <= max0 && 0 <= scale;
        assert(fp_mul_spec(max0 as int, scale as int) < 2 * (max0 as int) + 1)
            by (nonlinear_arith)
            requires 0 <= max0 && 0 <= scale <= 68813;
    }
    let min_j = fp_mul(min0, scale);
    let max_j = fp_mul(max0, scale);
    let direction: i8 = if random_i8() > 0 {
        1
    } else {
        -1
    };
    Racer::new(min_j, max_j, RACER_MIN_BRIGHTNESS, FP_ONE, color, pos, direction)
}

/// The traveling-racer animation: three fixed pools of emitters over one
/// grid cleared and redrawn every tick.
pub struct Racers {
    pub tracker: RacerTracker,
    pub racers_r: Vec<Racer>,
    pub racers_g: Vec<Racer>,
    pub racers_b: Vec<Racer>,
    pub colorlists: ColorBuffer,
    pub min_speed_base: u64,
    pub max_speed_base: u64,
    pub num_racers: usize,
}

impl Racers {
    /// Length of the concatenated address space, in fixed point.
    pub open spec fn maxpos(&self) -> int {
        self.colorlists.total() * (FP_ONE as int)
    }

    pub open spec fn wf(&self) -> bool {
        &&& self.tracker.wf()
        &&& self.colorlists.wf()
        &&& all_limited(self.colorlists@)
        &&& self.min_speed_base <= self.max_speed_base
        &&& 2 * (self.max_speed_base as int) < self.maxpos()
        &&& pool_wf(self.racers_r@, self.maxpos())
        &&& pool_wf(self.racers_g@, self.maxpos())
        &&& pool_wf(self.racers_b@, self.maxpos())
    }

    // One tick of the tracker chain for channel `i`: fast-filtered energy,
    // ceiling, floor, motion drive and slow-filtered glow.
    pub open spec fn tick_fe(&self, sp: &SignalProcessing, i: int) -> int {
        lowpass_spec(
            chan(self.tracker.filtered_energy, i) as int,
            sp.band_of(i),
            self.tracker.energy_alpha as int,
        )
    }

    pub open spec fn tick_mx(&self, sp: &SignalProcessing, i: int) -> int {
        snap_up_spec(
            chan(self.tracker.max_energy, i) as int,
            self.tick_fe(sp, i),
            self.tracker.cooldown as int,
        )
    }

    pub open spec fn tick_mn(&self, sp: &SignalProcessing, i: int) -> int {
        snap_down_spec(
            relax_spec(
                chan(self.tracker.min_energy, i) as int,
                self.tick_mx(sp, i) / 2,
                FP_ONE as int - self.tracker.cooldown as int,
            ),
            self.tick_fe(sp, i),
        )
    }

    pub open spec fn tick_drive(&self, sp: &SignalProcessing, i: int) -> int {
        fp_mul_spec(
            range_normalize_spec(
                self.tick_fe(sp, i),
                self.tick_mn(sp, i),
                self.tick_mx(sp, i),
                self.tracker.exp_of(i),
            ),
            self.tracker.scale_of(i),
        )
    }

    pub open spec fn tick_glow(&self, sp: &SignalProcessing, i: int) -> int {
        lowpass_spec(
            chan(self.tracker.filtered_brightness, i) as int,
            self.tick_drive(sp, i),
            self.tracker.brightness_alpha as int,
        )
    }

    pub fn new(
        num_strips: usize,
        leds_per_strip: usize,
        samp_rate: u64,
        samples_per_update: u64,
    ) -> (a: Racers)
        requires
            1 <= num_strips,
            1 <= leds_per_strip,
            num_strips * leds_per_strip <= MAX_LEDS_TOTAL as int,
            2 <= samp_rate <= 0x1_0000_0000,
            1 <= samples_per_update <= 0x10_0000,
            samples_per_update <= samp_rate,
            160 * (samples_per_update as int) < (num_strips * leds_per_strip) * (samp_rate as int),
        ensures
            a.wf(),
            a.colorlists.strips() == num_strips,
            a.colorlists.leds() == leds_per_strip,
            a.racers_r@.len() == 0,
            a.racers_g@.len() == 0,
            a.racers_b@.len() == 0,
            a.min_speed_base == (FP_ONE as int) * (samples_per_update as int) / (2 * (
            samp_rate as int)),
            a.max_speed_base == 80 * (FP_ONE as int) * (samples_per_update as int) / (
            samp_rate as int),
            a.num_racers == 10 * (num_strips * leds_per_strip) / 300,
            forall|i: int| 0 <= i < a.colorlists@.len() ==> #[trigger] a.colorlists@[i] == (Color {
                r: 0u64,
                g: 0u64,
                b: 0u64,
                w: 0u64,
            }),
    {
        let colorlists = ColorBuffer::new(num_strips, leds_per_strip);
        let total = colorlists.len();
        proof {
            lemma_mul_le(80 * FP_ONE as int, samples_per_update as int, 80 * FP_ONE as int,
                0x10_0000);
            lemma_mul_le(FP_ONE as int, samples_per_update as int, FP_ONE as int, 0x10_0000);
        }
        let min_speed_base = FP_ONE * samples_per_update / (2 * samp_rate);
        let max_speed_base = 80 * FP_ONE * samples_per_update / samp_rate;
        proof {
            assert(min_speed_base <= max_speed_base) by (nonlinear_arith)
                requires
                    min_speed_base == (FP_ONE as int) * (samples_per_update as int) / (2 * (
                    samp_rate as int)),
                    max_speed_base == 80 * (FP_ONE as int) * (samples_per_update as int) / (
                    samp_rate as int),
                    2 <= samp_rate,
                    1 <= samples_per_update;
            assert(2 * (max_speed_base as int) < (total as int) * (FP_ONE as int))
                by (nonlinear_arith)
                requires
                    max_speed_base == 80 * (FP_ONE as int) * (samples_per_update as int) / (
                    samp_rate as int),
                    160 * (samples_per_update as int) < (total as int) * (samp_rate as int),
                    2 <= samp_rate,
                    total == num_strips * leds_per_strip;
        }
        let num_racers = 10 * total / 300;
        Racers {
            tracker: RacerTracker::new(
                RACERS_COOLDOWN,
                RACERS_ENERGY_ALPHA,
                RACERS_BRIGHTNESS_ALPHA,
                RACERS_RGB_EXP_Q,
                RACERS_W_EXP_Q,
                RACERS_W_SCALE,
            ),
            racers_r: Vec::new(),
            racers_g: Vec::new(),
            racers_b: Vec::new(),
            colorlists,
            min_speed_base,
            max_speed_base,
            num_racers,
        }
    }

    /// Fill one pool with `count` freshly randomized racers.
    fn fill_pool(
        pool: &mut Vec<Racer>,
        count: usize,
        min0: u64,
        max0: u64,
        total: usize,
        color: Color,
    )
        requires
            min0 <= max0,
            2 * (max0 as int) < (total as int) * (FP_ONE as int),
            1 <= total <= MAX_LEDS_TOTAL,
            color_le(color, FP_ONE as int),
            pool_wf(old(pool)@, (total as int) * (FP_ONE as int)),
        ensures
            final(pool)@.len() == old(pool)@.len() + count,
            forall|i: int| 0 <= i < old(pool)@.len() ==> #[trigger] final(pool)@[i] == old(
                pool,
            )@[i],
            forall|i: int| old(pool)@.len() <= i < final(pool)@.len() ==> is_fresh_racer(
                #[trigger] final(pool)@[i],
                min0,
                max0,
                (total as int) * (FP_ONE as int),
                color,
            ),
            pool_wf(final(pool)@, (total as int) * (FP_ONE as int)),
    {
        let base = pool.len();
        let mut i: usize = 0;
        while i < count
            invariant
                i <= count,
                pool@.len() == base + i,
                min0 <= max0,
                2 * (max0 as int) < (total as int) * (FP_ONE as int),
                1 <= total <= MAX_LEDS_TOTAL,
                color_le(color, FP_ONE as int),
                forall|j: int| 0 <= j < base ==> #[trigger] pool@[j] == old(pool)@[j],
                forall|j: int| base <= j < pool@.len() ==> is_fresh_racer(
                    #[trigger] pool@[j],
                    min0,
                    max0,
                    (total as int) * (FP_ONE as int),
                    color,
                ),
                pool_wf(pool@, (total as int) * (FP_ONE as int)),
            decreases count - i,
        {
            let r = spawn_racer(min0, max0, total, color);
            pool.push(r);
            i += 1;
        }
    }

    /// Create the three racer pools, each member with a random start
    /// position over the full concatenated address space, a random
    /// direction and a jittered speed range.
    pub fn init(&mut self) -> (r: Result<(), AnimationError>)
        requires
            old(self).wf(),
        ensures
            r.is_ok(),
            final(self).wf(),
            final(self).colorlists == old(self).colorlists,
            final(self).tracker == old(self).tracker,
            final(self).min_speed_base == old(self).min_speed_base,
            final(self).max_speed_base == old(self).max_speed_base,
            final(self).num_racers == old(self).num_racers,
            final(self).racers_r@.len() == old(self).racers_r@.len() + old(self).num_racers,
            final(self).racers_g@.len() == old(self).racers_g@.len() + old(self).num_racers,
            final(self).racers_b@.len() == old(self).racers_b@.len() + old(self).num_racers,
            forall|i: int| old(self).racers_r@.len() <= i < final(self).racers_r@.len()
                ==> is_fresh_racer(
                #[trigger] final(self).racers_r@[i],
                old(self).min_speed_base,
                old(self).max_speed_base,
                old(self).maxpos(),
                Color { r: FP_ONE, g: 0u64, b: 0u64, w: 0u64 },
            ),
            forall|i: int| old(self).racers_g@.len() <= i < final(self).racers_g@.len()
                ==> is_fresh_racer(
                #[trigger] final(self).racers_g@[i],
                old(self).min_speed_base,
                old(self).max_speed_base,
                old(self).maxpos(),
                Color { r: 0u64, g: FP_ONE, b: 0u64, w: 0u64 },
            ),
            forall|i: int| old(self).racers_b@.len() <= i < final(self).racers_b@.len()
                ==> is_fresh_racer(
                #[trigger] final(self).racers_b@[i],
                old(self).min_speed_base,
                old(self).max_speed_base,
                old(self).maxpos(),
                Color { r: 0u64, g: 0u64, b: FP_ONE, w: 0u64 },
            ),
    {
        let total = self.colorlists.len();
        Racers::fill_pool(
            &mut self.racers_r,
            self.num_racers,
            self.min_speed_base,
            self.max_speed_base,
            total,
            Color { r: FP_ONE, g: 0, b: 0, w: 0 },
        );
        Racers::fill_pool(
            &mut self.racers_g,
            self.num_racers,
            self.min_speed_base,
            self.max_speed_base,
            total,
            Color { r: 0, g: FP_ONE, b: 0, w: 0 },
        );
        Racers::fill_pool(
            &mut self.racers_b,
            self.num_racers,
            self.min_speed_base,
            self.max_speed_base,
            total,
            Color { r: 0, g: 0, b: FP_ONE, w: 0 },
        );
        Ok(())
    }

    pub fn get_colorlist(&self) -> (b: &ColorBuffer)
        ensures
            *b == self.colorlists,
    {
        &self.colorlists
    }
}


impl Racers {
    /// Step one pool in place, every racer with the same drive values.
    fn step_pool(pool: &mut Vec<Racer>, speed: u64, brightness: u64, flare: u64, maxpos: i64)
        requires
            pool_wf(old(pool)@, maxpos as int),
            1 <= maxpos <= 0x10_0000_0000,
            speed <= FP_ONE,
            brightness <= FP_ONE,
            flare <= FP_ONE,
        ensures
            final(pool)@.len() == old(pool)@.len(),
            forall|i: int| 0 <= i < old(pool)@.len() ==> #[trigger] final(pool)@[i] == racer_step(
                old(pool)@[i],
                speed,
                brightness,
                flare,
                maxpos as int,
            ),
            pool_wf(final(pool)@, maxpos as int),
    {
        let len = pool.len();
        let mut i: usize = 0;
        while i < len
            invariant
                i <= len,
                len == pool@.len(),
                len == old(pool)@.len(),
                1 <= maxpos <= 0x10_0000_0000,
                speed <= FP_ONE,
                brightness <= FP_ONE,
                flare <= FP_ONE,
                forall|j: int| 0 <= j < i ==> #[trigger] pool@[j] == racer_step(
                    old(pool)@[j],
                    speed,
                    brightness,
                    flare,
                    maxpos as int,
                ),
                forall|j: int| i <= j < len ==> #[trigger] pool@[j] == old(pool)@[j],
                pool_wf(old(pool)@, maxpos as int),
                pool_wf(pool@, maxpos as int),
            decreases len - i,
        {
            let mut rc = pool[i];
            rc.update(speed, brightness, flare, maxpos);
            pool.set(i, rc);
            i += 1;
        }
    }

    /// Render one pool on top of the given base, front to back.
    fn render_pool(pool: &Vec<Racer>, colorlists: &mut ColorBuffer)
        requires
            old(colorlists).wf(),
            pool_wf(pool@, old(colorlists).total() * (FP_ONE as int)),
        ensures
            final(colorlists)@ == blend_racers(
                old(colorlists)@,
                pool@,
                old(colorlists).strips(),
                old(colorlists).leds(),
            ),
            final(colorlists).strips() == old(colorlists).strips(),
            final(colorlists).leds() == old(colorlists).leds(),
            final(colorlists).wf(),
    {
        let ghost base_cells = colorlists@;
        let cnt = pool.len();
        let mut j: usize = 0;
        while j < cnt
            invariant
                j <= cnt,
                cnt == pool@.len(),
                colorlists.wf(),
                colorlists.strips() == old(colorlists).strips(),
                colorlists.leds() == old(colorlists).leds(),
                pool_wf(pool@, old(colorlists).total() * (FP_ONE as int)),
                colorlists@ == blend_racers(
                    base_cells,
                    pool@.take(j as int),
                    old(colorlists).strips(),
                    old(colorlists).leds(),
                ),
            decreases cnt - j,
        {
            let rc = pool[j];
            proof {
                lemma_blend_racers_take(
                    base_cells,
                    pool@,
                    old(colorlists).strips(),
                    old(colorlists).leds(),
                    j as int,
                );
            }
            rc.render(colorlists);
            j += 1;
        }
        proof {
            assert(pool@.take(cnt as int) =~= pool@);
        }
    }

    /// One analysis tick: run the two-stage tracker, clear the grid, move
    /// every racer at its channel's drive, render all three pools with the
    /// shared air flare, and clamp.
    #[verifier::rlimit(80)]
    pub fn periodic(&mut self, sigproc: &SignalProcessing) -> (r: Result<(), AnimationError>)
        requires
            old(self).wf(),
            sigproc.wf(),
            sigproc.samp_rate >= 2 * FREQ_AIR_HI,
        ensures
            r.is_ok(),
            final(self).wf(),
            final(self).colorlists.strips() == old(self).colorlists.strips(),
            final(self).colorlists.leds() == old(self).colorlists.leds(),
            final(self).colorlists@.len() == old(self).colorlists@.len(),
            final(self).min_speed_base == old(self).min_speed_base,
            final(self).max_speed_base == old(self).max_speed_base,
            final(self).num_racers == old(self).num_racers,
            final(self).tracker.cooldown == old(self).tracker.cooldown,
            final(self).tracker.energy_alpha == old(self).tracker.energy_alpha,
            final(self).tracker.brightness_alpha == old(self).tracker.brightness_alpha,
            final(self).tracker.rgb_exp_q == old(self).tracker.rgb_exp_q,
            final(self).tracker.w_exp_q == old(self).tracker.w_exp_q,
            final(self).tracker.w_scale == old(self).tracker.w_scale,
            // the two-stage adaptive tracker, channel by channel
            forall|i: int| 0 <= i < 4 ==> chan(final(self).tracker.filtered_energy, i) == old(self).tick_fe(sigproc, i),
            forall|i: int| 0 <= i < 4 ==> chan(final(self).tracker.max_energy, i) == old(self).tick_mx(sigproc, i),
            forall|i: int| 0 <= i < 4 ==> chan(final(self).tracker.min_energy, i) == old(self).tick_mn(sigproc, i),
            forall|i: int| 0 <= i < 4 ==> chan(final(self).tracker.filtered_brightness, i) == old(self).tick_glow(sigproc, i),
            // every racer stepped once with its channel's drive, the slow
            // glow as brightness, and the air glow as shared flare
            final(self).racers_r@.len() == old(self).racers_r@.len(),
            final(self).racers_g@.len() == old(self).racers_g@.len(),
            final(self).racers_b@.len() == old(self).racers_b@.len(),
            forall|j: int| 0 <= j < old(self).racers_r@.len() ==> #[trigger] final(self).racers_r@[j] == racer_step(
                old(self).racers_r@[j],
                old(self).tick_drive(sigproc, 0) as u64,
                old(self).tick_glow(sigproc, 0) as u64,
                old(self).tick_glow(sigproc, 3) as u64,
                old(self).maxpos(),
            ),
            forall|j: int| 0 <= j < old(self).racers_g@.len() ==> #[trigger] final(self).racers_g@[j] == racer_step(
                old(self).racers_g@[j],
                old(self).tick_drive(sigproc, 1) as u64,
                old(self).tick_glow(sigproc, 1) as u64,
                old(self).tick_glow(sigproc, 3) as u64,
                old(self).maxpos(),
            ),
            forall|j: int| 0 <= j < old(self).racers_b@.len() ==> #[trigger] final(self).racers_b@[j] == racer_step(
                old(self).racers_b@[j],
                old(self).tick_drive(sigproc, 2) as u64,
                old(self).tick_glow(sigproc, 2) as u64,
                old(self).tick_glow(sigproc, 3) as u64,
                old(self).maxpos(),
            ),
            // the grid is redrawn from black: all three pools blended in
            // order on an all-black base, then clamped
            final(self).colorlists@ == limit_map_r(
                blend_racers(
                    blend_racers(
                        blend_racers(
                            zero_cells(old(self).colorlists@.len() as int),
                            final(self).racers_r@,
                            old(self).colorlists.strips(),
                            old(self).colorlists.leds(),
                        ),
                        final(self).racers_g@,
                        old(self).colorlists.strips(),
                        old(self).colorlists.leds(),
                    ),
                    final(self).racers_b@,
                    old(self).colorlists.strips(),
                    old(self).colorlists.leds(),
                ),
            ),
    {
        let cur = sigproc.get_band_energies();
        let drive = self.tracker.update(&cur);
        let glow = self.tracker.filtered_brightness;
        proof {
            assert(chan(cur, 0) == sigproc.band_of(0));
            assert(chan(cur, 1) == sigproc.band_of(1));
            assert(chan(cur, 2) == sigproc.band_of(2));
            assert(chan(cur, 3) == sigproc.band_of(3));
            assert(chan(self.tracker.filtered_energy, 0) == old(self).tick_fe(sigproc, 0));
            assert(chan(self.tracker.filtered_energy, 1) == old(self).tick_fe(sigproc, 1));
            assert(chan(self.tracker.filtered_energy, 2) == old(self).tick_fe(sigproc, 2));
            assert(chan(self.tracker.filtered_energy, 3) == old(self).tick_fe(sigproc, 3));
            assert(chan(self.tracker.max_energy, 0) == old(self).tick_mx(sigproc, 0));
            assert(chan(self.tracker.max_energy, 1) == old(self).tick_mx(sigproc, 1));
            assert(chan(self.tracker.max_energy, 2) == old(self).tick_mx(sigproc, 2));
            assert(chan(self.tracker.max_energy, 3) == old(self).tick_mx(sigproc, 3));
            assert(chan(self.tracker.min_energy, 0) == old(self).tick_mn(sigproc, 0));
            assert(chan(self.tracker.min_energy, 1) == old(self).tick_mn(sigproc, 1));
            assert(chan(self.tracker.min_energy, 2) == old(self).tick_mn(sigproc, 2));
            assert(chan(self.tracker.min_energy, 3) == old(self).tick_mn(sigproc, 3));
            assert(chan(drive, 0) == old(self).tick_drive(sigproc, 0));
            assert(chan(drive, 1) == old(self).tick_drive(sigproc, 1));
            assert(chan(drive, 2) == old(self).tick_drive(sigproc, 2));
            assert(chan(drive, 3) == old(self).tick_drive(sigproc, 3));
            assert(chan(glow, 0) == old(self).tick_glow(sigproc, 0));
            assert(chan(glow, 1) == old(self).tick_glow(sigproc, 1));
            assert(chan(glow, 2) == old(self).tick_glow(sigproc, 2));
            assert(chan(glow, 3) == old(self).tick_glow(sigproc, 3));
        }

        // set all LEDs to black
        self.colorlists.clear();
        let ghost zeros = self.colorlists@;
        proof {
            assert(zeros =~= zero_cells(old(self).colorlists@.len() as int));
        }

        // move every racer by its channel's drive
        let total = self.colorlists.len();
        proof {
            lemma_mul_le(total as int, FP_ONE as int, MAX_LEDS_TOTAL as int, FP_ONE as int);
        }
        let maxpos: i64 = ((total as u64) * FP_ONE) as i64;
        Racers::step_pool(&mut self.racers_r, drive.r, glow.r, glow.w, maxpos);
        Racers::step_pool(&mut self.racers_g, drive.g, glow.g, glow.w, maxpos);
        Racers::step_pool(&mut self.racers_b, drive.b, glow.b, glow.w, maxpos);

        // render all three pools
        Racers::render_pool(&self.racers_r, &mut self.colorlists);
        let ghost after_r = self.colorlists@;
        Racers::render_pool(&self.racers_g, &mut self.colorlists);
        let ghost after_g = self.colorlists@;
        Racers::render_pool(&self.racers_b, &mut self.colorlists);
        let ghost after_b = self.colorlists@;

        // final clamp pass
        self.colorlists.limit_all();
        proof {
            assert(self.colorlists@ =~= limit_map_r(after_b));
        }
        Ok(())
    }
}

/// The grid `s` with every cell clamped into the rendered range.
pub open spec fn limit_map_r(s: Seq<Color>) -> Seq<Color> {
    Seq::new(s.len(), |i: int| color_limited(s[i]))
}

impl crate::animation::Animation for Racers {
    open spec fn well_formed(&self) -> bool {
        self.wf()
    }

    open spec fn strip_count(&self) -> int {
        self.colorlists.strips()
    }

    open spec fn led_count(&self) -> int {
        self.colorlists.leds()
    }

    open spec fn colors(&self) -> Seq<Color> {
        self.colorlists@
    }

    fn init(&mut self) -> (r: Result<(), AnimationError>) {
        Racers::init(self)
    }

    fn periodic(&mut self, sigproc: &SignalProcessing) -> (r: Result<(), AnimationError>) {
        Racers::periodic(self, sigproc)
    }

    fn get_colorlist(&self) -> (b: &ColorBuffer) {
        Racers::get_colorlist(self)
    }
}

} // verus!
