//! Traveling decaying sparks: points of light that move along a strip at a
//! fixed velocity, fade by a fixed amount per tick, and expire on leaving
//! the strip or running out of brightness.  Bass is rendered through the
//! particle-diffusion scatter on the same buffer; mid, treble and air each
//! spawn one spark per tick.

use vstd::prelude::*;
use std::collections::VecDeque;
use crate::animation::{
    AnimationError, Color, ColorBuffer, chan, chan_sum, color_le, cells_le, color_scaled,
    color_limited, color_add_sat, same_except, MAX_LEDS_TOTAL,
};
use crate::fixed::{FP_ONE, fp_mul, fp_mul_spec, lemma_mul_le, lemma_fp_mul_unit, lemma_fp_mul_le_rhs};
use crate::tracker::{EnergyTracker, snap_up_spec, normalize_spec};
use crate::signal_processing::{SignalProcessing, FREQ_AIR_HI};
use crate::particles::{scatter_energy, faded, BUDGET_MAX, ACC_LIMIT, CONDENSATION_MAX};
use crate::rng::{random_below, random_bool};

verus! {

/// Ceiling cooldown factor per tick (about 0.99995).
pub const SPARKLES_COOLDOWN: u64 = 65533;

/// Normalization exponent for R, G and B, in quarter units (1.5).
pub const SPARKLES_RGB_EXP_Q: u8 = 6;

/// Normalization exponent for the air channel, in quarter units (2.25).
pub const SPARKLES_W_EXP_Q: u8 = 9;

/// Buffer fade factor per tick (about 0.97).
pub const SPARKLES_FADE: u64 = 63570;

/// Fraction of all LEDs activated per unit bass drive (about 0.03).
pub const SPARKLES_AVG_ACTIVATED: u64 = 1966;

/// Extra attenuation of the white sparks (0.3).
pub const SPARKLES_WHITE_SCALE: u64 = 19661;

/// Bias constant for the bass scatter (5.0).
pub const SPARKLES_CONDENSATION: u64 = 327680;

/// A spark: a moving, fading point of light on one strip.
#[derive(Clone, Copy, PartialEq, Eq, Structural, Debug)]
pub struct Spark {
    pub vspeed: i64,
    pub brightness: u64,
    pub color: Color,
    pub strip: u16,
    pub led: i64,
    pub has_expired: bool,
}

/// A spark fits the strip geometry: bounded speed and position, unit
/// brightness and color, and a strip index inside the grid.
pub open spec fn spark_wf(s: Spark, strips: int, lps: int) -> bool {
    &&& -(lps * (FP_ONE as int)) <= s.vspeed <= lps * (FP_ONE as int)
    &&& -2 * (lps * (FP_ONE as int)) <= s.led <= 2 * (lps * (FP_ONE as int))
    &&& s.brightness <= FP_ONE
    &&& color_le(s.color, FP_ONE as int)
    &&& (s.strip as int) < strips
    &&& (!s.has_expired ==> -(FP_ONE as int) < s.led < lps * (FP_ONE as int))
}

/// One tick of a spark: advance by its velocity, fade by `fade_step`
/// (saturating at zero), and expire on leaving `[-1, lps)` or on running
/// out of brightness.  An expired spark no longer changes.
pub open spec fn spark_step(s: Spark, fade_step: u64, lps: int) -> Spark {
    if s.has_expired {
        s
    } else {
        let led2 = s.led + s.vspeed;
        let b2: u64 = if s.brightness > fade_step {
            (s.brightness - fade_step) as u64
        } else {
            0
        };
        let expired = led2 >= lps * (FP_ONE as int) || led2 <= -(FP_ONE as int) || b2 == 0;
        Spark {
            vspeed: s.vspeed,
            brightness: b2,
            color: s.color,
            strip: s.strip,
            led: led2 as i64,
            has_expired: expired,
        }
    }
}

/// The spark after `k` ticks.
pub open spec fn spark_after(s: Spark, fade_step: u64, lps: int, k: nat) -> Spark
    decreases k,
{
    if k == 0 {
        s
    } else {
        spark_step(spark_after(s, fade_step, lps, (k - 1) as nat), fade_step, lps)
    }
}

/// The number of ticks a brightness `b` survives a fade of `step` per
/// tick: the ceiling of `b / step`.
pub open spec fn ticks_to_expire(b: int, step: int) -> int {
    (b + step - 1) / step
}

/// A spark's velocity, color and strip never change over ticks.
pub proof fn lemma_spark_after_fixed(s: Spark, fade_step: u64, lps: int, k: nat)
    ensures
        spark_after(s, fade_step, lps, k).vspeed == s.vspeed,
        spark_after(s, fade_step, lps, k).color == s.color,
        spark_after(s, fade_step, lps, k).strip == s.strip,
    decreases k,
{
    if k > 0 {
        lemma_spark_after_fixed(s, fade_step, lps, (k - 1) as nat);
    }
}

/// Spark lifecycle: a live spark with positive brightness `b`, fading by
/// `step` per tick and never leaving the valid position range, is still
/// live after any fewer than `ceil(b/step)` ticks and expires at exactly
/// tick `ceil(b/step)`.
pub proof fn lemma_spark_lifecycle(s: Spark, fade_step: u64, lps: int, k: nat)
    requires
        !s.has_expired,
        s.brightness > 0,
        fade_step > 0,
        1 <= lps <= MAX_LEDS_TOTAL as int,
        -2 * (lps * (FP_ONE as int)) <= s.led <= 2 * (lps * (FP_ONE as int)),
        k <= ticks_to_expire(s.brightness as int, fade_step as int),
        forall|j: int| 1 <= j <= k ==> -(FP_ONE as int) < s.led + #[trigger] (j * s.vspeed)
            < lps * (FP_ONE as int),
    ensures
        k < ticks_to_expire(s.brightness as int, fade_step as int) ==> (!spark_after(
            s,
            fade_step,
            lps,
            k,
        ).has_expired && spark_after(s, fade_step, lps, k).brightness == s.brightness - k * (
        fade_step as int) && spark_after(s, fade_step, lps, k).led == s.led + k * s.vspeed),
        k == ticks_to_expire(s.brightness as int, fade_step as int) ==> spark_after(
            s,
            fade_step,
            lps,
            k,
        ).has_expired,
    decreases k,
{
    let b = s.brightness as int;
    let step = fade_step as int;
    let n = ticks_to_expire(b, step);
    assert(n >= 1) by (nonlinear_arith)
        requires b > 0 && step > 0 && n == (b + step - 1) / step;
    if k == 0 {
    } else {
        lemma_spark_lifecycle(s, fade_step, lps, (k - 1) as nat);
        lemma_spark_after_fixed(s, fade_step, lps, (k - 1) as nat);
        let prev = spark_after(s, fade_step, lps, (k - 1) as nat);
        assert(spark_after(s, fade_step, lps, k) == spark_step(prev, fade_step, lps));
        assert((k - 1) as int * s.vspeed + s.vspeed == k as int * s.vspeed) by (nonlinear_arith);
        assert((k - 1) as int * step + step == k as int * step) by (nonlinear_arith);
        assert(!prev.has_expired);
        assert(prev.brightness == b - (k - 1) * step);
        assert(prev.led == s.led + (k - 1) * s.vspeed);
        let led2 = prev.led + prev.vspeed;
        assert(led2 == s.led + k as int * s.vspeed);
        assert(-(FP_ONE as int) < led2 < lps * (FP_ONE as int));
        assert(lps * (FP_ONE as int) <= 0x1_0000_0000_0000_0000) by (nonlinear_arith)
            requires 1 <= lps <= MAX_LEDS_TOTAL as int;
        assert(led2 as i64 == led2);
        if k < n {
            // still above one step of brightness before this tick
            assert(b - (k - 1) * step > step) by (nonlinear_arith)
                requires b > 0 && step > 0 && n == (b + step - 1) / step && k < n;
            assert(prev.brightness > fade_step);
            assert(b - k as int * step > 0);
            assert(spark_after(s, fade_step, lps, k).brightness == b - k * step);
            assert(spark_after(s, fade_step, lps, k).led == led2);
            assert(!spark_after(s, fade_step, lps, k).has_expired);
        } else {
            // k == n: the remaining brightness is at most one step
            assert(b - (n - 1) * step <= step) by (nonlinear_arith)
                requires b > 0 && step > 0 && n == (b + step - 1) / step;
            assert(spark_after(s, fade_step, lps, k).has_expired);
        }
    }
}

/// The two integer LED slots bracketing a fractional position, and the
/// fractional offset: `led_floor` is the greatest LED at or below the
/// position (`-1` just off the lower end), `fract` the offset above it.
pub open spec fn led_floor(led: int) -> int {
    if led >= 0 {
        led / (FP_ONE as int)
    } else {
        -1
    }
}

pub open spec fn led_fract(led: int) -> int {
    led - led_floor(led) * (FP_ONE as int)
}

/// A spark blended additively into the grid by linear interpolation: the
/// floor slot is weighted by the complementary fractional offset times
/// brightness, the ceiling slot by the offset.  Slots off the strip are
/// skipped; an expired spark is not rendered.
pub open spec fn blend_spark(cells: Seq<Color>, s: Spark, lps: int) -> Seq<Color> {
    if s.has_expired {
        cells
    } else {
        let l1 = led_floor(s.led as int);
        let fract = led_fract(s.led as int);
        let l2 = if fract == 0 {
            l1
        } else {
            l1 + 1
        };
        let c1 = color_scaled(
            s.color,
            fp_mul_spec(FP_ONE as int - fract, s.brightness as int),
        );
        let c2 = color_scaled(s.color, fp_mul_spec(fract, s.brightness as int));
        let base = (s.strip as int) * lps;
        let cells1 = if l1 >= 0 {
            cells.update(base + l1, color_add_sat(cells[base + l1], c1))
        } else {
            cells
        };
        let cells2 = if l2 < lps {
            cells1.update(base + l2, color_add_sat(cells1[base + l2], c2))
        } else {
            cells1
        };
        cells2
    }
}

/// A whole queue of sparks blended front to back.
pub open spec fn blend_sparks(cells: Seq<Color>, q: Seq<Spark>, lps: int) -> Seq<Color>
    decreases q.len(),
{
    if q.len() == 0 {
        cells
    } else {
        blend_sparks(blend_spark(cells, q[0], lps), q.drop_first(), lps)
    }
}

pub proof fn lemma_blend_take(cells: Seq<Color>, q: Seq<Spark>, lps: int, k: int)
    requires
        0 <= k < q.len(),
    ensures
        blend_sparks(cells, q.take(k + 1), lps) == blend_spark(
            blend_sparks(cells, q.take(k), lps),
            q[k],
            lps,
        ),
    decreases k,
{
    if k == 0 {
        assert(q.take(1).len() == 1);
        assert(q.take(0).len() == 0);
        assert(q.take(1).drop_first() =~= Seq::<Spark>::empty());
        assert(q.take(0) =~= Seq::<Spark>::empty());
        assert(q.take(1)[0] == q[0]);
        assert(blend_sparks(cells, q.take(0), lps) == cells);
        assert(blend_sparks(cells, q.take(1), lps) == blend_sparks(
            blend_spark(cells, q[0], lps),
            q.take(1).drop_first(),
            lps,
        ));
        assert(blend_sparks(blend_spark(cells, q[0], lps), Seq::<Spark>::empty(), lps)
            == blend_spark(cells, q[0], lps));
    } else {
        assert(q.take(k + 1)[0] == q[0]);
        assert(q.take(k)[0] == q[0]);
        assert(q.take(k + 1).drop_first() =~= q.drop_first().take(k));
        assert(q.take(k).drop_first() =~= q.drop_first().take(k - 1));
        lemma_blend_take(blend_spark(cells, q[0], lps), q.drop_first(), lps, k - 1);
        assert(q.drop_first()[k - 1] == q[k]);
        assert(blend_sparks(cells, q.take(k + 1), lps) == blend_sparks(
            blend_spark(cells, q[0], lps),
            q.drop_first().take(k),
            lps,
        ));
        assert(blend_sparks(cells, q.take(k), lps) == blend_sparks(
            blend_spark(cells, q[0], lps),
            q.drop_first().take(k - 1),
            lps,
        ));
    }
}

impl Spark {
    pub fn new(vspeed: i64, brightness: u64, color: Color, strip: u16, led: i64) -> (s: Spark)
        ensures
            s == (Spark { vspeed, brightness, color, strip, led, has_expired: false }),
    {
        Spark { vspeed, brightness, color, strip, led, has_expired: false }
    }

    /// One tick: advance, fade, and expire on leaving the strip or on
    /// exhausted brightness.
    pub fn update(&mut self, fade_step: u64, leds_per_strip: usize)
        requires
            fade_step <= FP_ONE,
            1 <= leds_per_strip <= MAX_LEDS_TOTAL,
            -2 * ((leds_per_strip as int) * (FP_ONE as int)) <= old(self).led <= 2 * ((
            leds_per_strip as int) * (FP_ONE as int)),
            -((leds_per_strip as int) * (FP_ONE as int)) <= old(self).vspeed <= (
            leds_per_strip as int) * (FP_ONE as int),
            old(self).brightness <= FP_ONE,
        ensures
            *final(self) == spark_step(*old(self), fade_step, leds_per_strip as int),
    {
        if self.has_expired {
            return ;
        }
        let lps_fp: i64 = (leds_per_strip as i64) * (FP_ONE as i64);
        self.led = self.led + self.vspeed;
        self.brightness = if self.brightness > fade_step {
            self.brightness - fade_step
        } else {
            0
        };
        if self.led >= lps_fp || self.led <= -(FP_ONE as i64) {
            self.has_expired = true;
        }
        if self.brightness == 0 {
            self.has_expired = true;
        }
    }

    pub fn has_expired(&self) -> (r: bool)
        ensures
            r == self.has_expired,
    {
        self.has_expired
    }

    /// Blend this spark additively into the grid at its fractional
    /// position, linearly interpolated over the two bracketing LED slots.
    pub fn render(&self, colorlists: &mut ColorBuffer)
        requires
            old(colorlists).wf(),
            spark_wf(*self, old(colorlists).strips(), old(colorlists).leds()),
        ensures
            final(colorlists)@ == blend_spark(old(colorlists)@, *self, old(colorlists).leds()),
            final(colorlists).strips() == old(colorlists).strips(),
            final(colorlists).leds() == old(colorlists).leds(),
            final(colorlists).wf(),
    {
        if self.has_expired {
            return ;
        }
        let lps = colorlists.leds_per_strip();
        let l1: i64 = if self.led >= 0 {
            self.led / (FP_ONE as i64)
        } else {
            -1
        };
        proof {
            assert(l1 == led_floor(self.led as int));
            assert(0 <= led_fract(self.led as int) < FP_ONE as int) by (nonlinear_arith)
                requires
                    l1 == led_floor(self.led as int),
                    -(FP_ONE as int) < self.led < (lps as int) * (FP_ONE as int),
                    led_fract(self.led as int) == self.led - l1 * (FP_ONE as int);
            assert(l1 < lps as int) by (nonlinear_arith)
                requires
                    1 <= lps,
                    -(FP_ONE as int) < self.led < (lps as int) * (FP_ONE as int),
                    l1 == led_floor(self.led as int);
        }
        let fract: u64 = (self.led - l1 * (FP_ONE as i64)) as u64;
        let l2: i64 = if fract == 0 {
            l1
        } else {
            l1 + 1
        };
        proof {
            lemma_mul_le(fract as int, self.brightness as int, FP_ONE as int, FP_ONE as int);
            lemma_fp_mul_unit(fract as int, self.brightness as int);
            lemma_mul_le(
                (FP_ONE - fract) as int,
                self.brightness as int,
                FP_ONE as int,
                FP_ONE as int,
            );
            lemma_fp_mul_unit((FP_ONE - fract) as int, self.brightness as int);
        }
        let w1 = fp_mul(FP_ONE - fract, self.brightness);
        let w2 = fp_mul(fract, self.brightness);
        proof {
            lemma_mul_le(self.color.r as int, w1 as int, FP_ONE as int, FP_ONE as int);
            lemma_mul_le(self.color.g as int, w1 as int, FP_ONE as int, FP_ONE as int);
            lemma_mul_le(self.color.b as int, w1 as int, FP_ONE as int, FP_ONE as int);
            lemma_mul_le(self.color.w as int, w1 as int, FP_ONE as int, FP_ONE as int);
            lemma_mul_le(self.color.r as int, w2 as int, FP_ONE as int, FP_ONE as int);
            lemma_mul_le(self.color.g as int, w2 as int, FP_ONE as int, FP_ONE as int);
            lemma_mul_le(self.color.b as int, w2 as int, FP_ONE as int, FP_ONE as int);
            lemma_mul_le(self.color.w as int, w2 as int, FP_ONE as int, FP_ONE as int);
        }
        let c1 = self.color.scaled_copy(w1);
        let c2 = self.color.scaled_copy(w2);
        proof {
            assert((self.strip as int) * (lps as int) + (lps as int) <= colorlists.strips() * (
            lps as int)) by (nonlinear_arith)
                requires (self.strip as int) < colorlists.strips() && 1 <= lps;
        }
        let base = (self.strip as usize) * lps;
        if l1 >= 0 {
            proof {
                colorlists.lemma_flat_in_range(self.strip as int, l1 as int);
            }
            let idx1 = base + (l1 as usize);
            colorlists.add_flat(idx1, &c1);
        }
        if (l2 as usize) < lps {
            proof {
                assert(l2 >= 0);
                colorlists.lemma_flat_in_range(self.strip as int, l2 as int);
            }
            let idx2 = base + (l2 as usize);
            colorlists.add_flat(idx2, &c2);
        }
    }
}


/// The grid `s` with every cell clamped into the rendered range.
pub open spec fn limit_map(s: Seq<Color>) -> Seq<Color> {
    Seq::new(s.len(), |i: int| color_limited(s[i]))
}

/// The queue `q` after one tick of every spark.
pub open spec fn sparks_stepped(q: Seq<Spark>, fade_step: u64, lps: int) -> Seq<Spark> {
    Seq::new(q.len(), |i: int| spark_step(q[i], fade_step, lps))
}

/// Lazy compaction: the queue with its longest expired prefix removed.
pub open spec fn drop_expired_prefix(q: Seq<Spark>) -> Seq<Spark>
    decreases q.len(),
{
    if q.len() > 0 && q[0].has_expired {
        drop_expired_prefix(q.drop_first())
    } else {
        q
    }
}

/// A queue whose first `k` sparks are expired and whose `k`-th is live (or
/// past the end) compacts to its suffix from `k`.
pub proof fn lemma_drop_prefix(q: Seq<Spark>, k: int)
    requires
        0 <= k <= q.len(),
        forall|i: int| 0 <= i < k ==> q[i].has_expired,
        k == q.len() || !q[k].has_expired,
    ensures
        drop_expired_prefix(q) == q.skip(k),
    decreases k,
{
    if k == 0 {
        assert(q.skip(0) =~= q);
    } else {
        assert(q[0].has_expired);
        assert(forall|i: int| 0 <= i < k - 1 ==> q.drop_first()[i].has_expired);
        lemma_drop_prefix(q.drop_first(), k - 1);
        assert(q.drop_first().skip(k - 1) =~= q.skip(k));
    }
}

/// Every spark of every queue `q` is well formed for the grid.
pub open spec fn sparks_wf(q: Seq<Spark>, strips: int, lps: int) -> bool {
    forall|i: int| 0 <= i < q.len() ==> spark_wf(#[trigger] q[i], strips, lps)
}

/// The traveling-spark animation: an age-ordered queue of sparks over one
/// fading buffer, with bass rendered by particle diffusion.
pub struct Sparkles {
    pub tracker: EnergyTracker,
    pub sparks: VecDeque<Spark>,
    pub colorlists: ColorBuffer,
    pub fade_factor: u64,
    pub avg_leds_activated: u64,
    pub white_extra_scale: u64,
    pub condensation_factor: u64,
    pub spark_fade_step: u64,
    pub vspeed_mids: u64,
    pub vspeed_highs: u64,
    pub vspeed_xhighs: u64,
}

impl Sparkles {
    pub open spec fn lps(&self) -> int {
        self.colorlists.leds()
    }

    pub open spec fn wf(&self) -> bool {
        &&& self.tracker.wf()
        &&& self.colorlists.wf()
        &&& self.colorlists.strips() <= 0xFFFF
        &&& cells_le(self.colorlists@, FP_ONE as int)
        &&& self.fade_factor <= FP_ONE
        &&& self.white_extra_scale <= FP_ONE
        &&& self.condensation_factor <= CONDENSATION_MAX
        &&& (self.avg_leds_activated as int) * self.colorlists@.len() <= BUDGET_MAX as int
        &&& 1 <= self.spark_fade_step <= FP_ONE
        &&& self.vspeed_mids <= self.lps() * (FP_ONE as int)
        &&& self.vspeed_highs <= self.lps() * (FP_ONE as int)
        &&& self.vspeed_xhighs <= self.lps() * (FP_ONE as int)
        &&& sparks_wf(self.sparks@, self.colorlists.strips(), self.lps())
    }

    /// The ceiling of channel `i` after this tick's reading.
    pub open spec fn tick_ceiling(&self, sp: &SignalProcessing, i: int) -> int {
        snap_up_spec(
            chan(self.tracker.max_energy, i) as int,
            sp.band_of(i),
            self.tracker.cooldown as int,
        )
    }

    /// The normalized drive of channel `i` after this tick's reading.
    pub open spec fn tick_norm(&self, sp: &SignalProcessing, i: int) -> int {
        normalize_spec(sp.band_of(i), self.tick_ceiling(sp, i), self.tracker.exp_of(i))
    }

    /// This tick's bass deposit budget.
    pub open spec fn bass_budget(&self, sp: &SignalProcessing) -> int {
        fp_mul_spec(self.tick_norm(sp, 0), (self.avg_leds_activated as int) * self.colorlists@.len())
    }

    /// A freshly spawned mid spark: strip center, brightness `b`, moving
    /// up or down at the mid speed, pure green.
    pub open spec fn is_mid_spawn(&self, s: Spark, b: int) -> bool {
        &&& (s.vspeed == self.vspeed_mids as int || s.vspeed == -(self.vspeed_mids as int))
        &&& s.brightness == b
        &&& s.color == (Color { r: 0u64, g: FP_ONE, b: 0u64, w: 0u64 })
        &&& (s.strip as int) < self.colorlists.strips()
        &&& s.led == (self.lps() * (FP_ONE as int) - (FP_ONE as int)) / 2
        &&& !s.has_expired
    }

    /// A freshly spawned strip-end spark: either at the top moving down or
    /// at the bottom moving up, at speed `v`, brightness `b`, color `c`.
    pub open spec fn is_end_spawn(&self, s: Spark, b: int, v: int, c: Color) -> bool {
        &&& ((s.led == (self.lps() - 1) * (FP_ONE as int) && s.vspeed == -v) || (s.led == 0
            && s.vspeed == v))
        &&& s.brightness == b
        &&& s.color == c
        &&& (s.strip as int) < self.colorlists.strips()
        &&& !s.has_expired
    }

    pub fn new(
        num_strips: usize,
        leds_per_strip: usize,
        samp_rate: u64,
        samples_per_update: u64,
    ) -> (a: Sparkles)
        requires
            1 <= num_strips <= 0xFFFF,
            1 <= leds_per_strip,
            num_strips * leds_per_strip <= MAX_LEDS_TOTAL as int,
            2 <= samp_rate <= 0x1_0000_0000,
            1 <= samples_per_update <= 0x10_0000,
            samples_per_update <= samp_rate,
            5 * (FP_ONE as int) * samples_per_update >= 2 * samp_rate,
            5 * samples_per_update <= 2 * samp_rate,
        ensures
            a.wf(),
            a.colorlists.strips() == num_strips,
            a.colorlists.leds() == leds_per_strip,
            a.sparks@.len() == 0,
            forall|i: int| 0 <= i < a.colorlists@.len() ==> #[trigger] a.colorlists@[i] == (Color {
                r: 0u64,
                g: 0u64,
                b: 0u64,
                w: 0u64,
            }),
            a.tracker.max_energy == (Color { r: FP_ONE, g: FP_ONE, b: FP_ONE, w: FP_ONE }),
            a.fade_factor == SPARKLES_FADE,
            a.avg_leds_activated == SPARKLES_AVG_ACTIVATED,
            a.white_extra_scale == SPARKLES_WHITE_SCALE,
            a.condensation_factor == SPARKLES_CONDENSATION,
            a.spark_fade_step == 5 * (FP_ONE as int) * (samples_per_update as int) / (2 * (
            samp_rate as int)),
            a.vspeed_mids == (leds_per_strip as int) * (FP_ONE as int) * (samples_per_update as int)
                / (samp_rate as int),
            a.vspeed_highs == 4 * ((leds_per_strip as int) * (FP_ONE as int) * (
            samples_per_update as int)) / (5 * (samp_rate as int)),
            a.vspeed_xhighs == (leds_per_strip as int) * (FP_ONE as int) * (
            samples_per_update as int) / (2 * (samp_rate as int)),
    {
        let colorlists = ColorBuffer::new(num_strips, leds_per_strip);
        proof {
            lemma_mul_le(
                SPARKLES_AVG_ACTIVATED as int,
                colorlists@.len() as int,
                FP_ONE as int,
                MAX_LEDS_TOTAL as int,
            );
            assert(leds_per_strip <= MAX_LEDS_TOTAL) by (nonlinear_arith)
                requires
                    1 <= num_strips,
                    (num_strips as int) * (leds_per_strip as int) <= MAX_LEDS_TOTAL as int;
            lemma_mul_le(leds_per_strip as int, FP_ONE as int, MAX_LEDS_TOTAL as int, FP_ONE as int);
            lemma_mul_le(
                (leds_per_strip as int) * (FP_ONE as int),
                samples_per_update as int,
                (MAX_LEDS_TOTAL as int) * (FP_ONE as int),
                0x10_0000,
            );
        }
        let lps_scaled: u64 = (leds_per_strip as u64) * FP_ONE * samples_per_update;
        let vspeed_mids = lps_scaled / samp_rate;
        let vspeed_highs = 4 * lps_scaled / (5 * samp_rate);
        let vspeed_xhighs = lps_scaled / (2 * samp_rate);
        proof {
            lemma_mul_le(5 * FP_ONE as int, samples_per_update as int, 5 * FP_ONE as int, 0x10_0000);
        }
        let spark_fade_step = 5 * FP_ONE * samples_per_update / (2 * samp_rate);
        proof {
            let lf = (leds_per_strip as int) * (FP_ONE as int);
            assert(lps_scaled == lf * (samples_per_update as int)) by (nonlinear_arith)
                requires lps_scaled == (leds_per_strip as int) * (FP_ONE as int) * (
                samples_per_update as int) && lf == (leds_per_strip as int) * (FP_ONE as int);
            assert(vspeed_mids <= lf) by (nonlinear_arith)
                requires
                    vspeed_mids == lf * (samples_per_update as int) / (samp_rate as int),
                    0 <= lf,
                    1 <= samples_per_update <= samp_rate;
            assert(vspeed_highs <= lf) by (nonlinear_arith)
                requires
                    vspeed_highs == 4 * (lf * (samples_per_update as int)) / (5 * samp_rate as int),
                    0 <= lf,
                    1 <= samples_per_update <= samp_rate;
            assert(vspeed_xhighs <= lf) by (nonlinear_arith)
                requires
                    vspeed_xhighs == lf * (samples_per_update as int) / (2 * samp_rate as int),
                    0 <= lf,
                    1 <= samples_per_update <= samp_rate;
            assert(1 <= spark_fade_step <= FP_ONE) by (nonlinear_arith)
                requires
                    spark_fade_step == 5 * (FP_ONE as int) * (samples_per_update as int) / (2
                        * samp_rate as int),
                    5 * (FP_ONE as int) * (samples_per_update as int) >= 2 * samp_rate as int,
                    5 * (samples_per_update as int) <= 2 * samp_rate as int,
                    2 <= samp_rate;
        }
        Sparkles {
            tracker: EnergyTracker::new(SPARKLES_COOLDOWN, SPARKLES_RGB_EXP_Q, SPARKLES_W_EXP_Q),
            sparks: VecDeque::new(),
            colorlists,
            fade_factor: SPARKLES_FADE,
            avg_leds_activated: SPARKLES_AVG_ACTIVATED,
            white_extra_scale: SPARKLES_WHITE_SCALE,
            condensation_factor: SPARKLES_CONDENSATION,
            spark_fade_step,
            vspeed_mids,
            vspeed_highs,
            vspeed_xhighs,
        }
    }

    pub fn init(&mut self) -> (r: Result<(), AnimationError>)
        ensures
            *final(self) == *old(self),
            r.is_ok(),
    {
        Ok(())
    }

    pub fn get_colorlist(&self) -> (b: &ColorBuffer)
        ensures
            *b == self.colorlists,
    {
        &self.colorlists
    }
}


/// One step preserves a spark's well-formedness.
pub proof fn lemma_spark_step_wf(s: Spark, fade_step: u64, strips: int, lps: int)
    requires
        spark_wf(s, strips, lps),
        fade_step <= FP_ONE,
        1 <= lps <= MAX_LEDS_TOTAL as int,
    ensures
        spark_wf(spark_step(s, fade_step, lps), strips, lps),
{
    if !s.has_expired {
        let led2 = s.led + s.vspeed;
        assert(lps * (FP_ONE as int) <= 0x10_0000_0000) by (nonlinear_arith)
            requires 1 <= lps <= MAX_LEDS_TOTAL as int;
        assert(led2 as i64 == led2);
    }
}

impl Sparkles {
    /// One analysis tick: fade the buffer, scatter the bass budget, step
    /// every spark, spawn one mid, one treble and one air spark, drop the
    /// expired prefix of the queue, render the queue, and clamp.
    #[verifier::rlimit(80)]
    pub fn periodic(&mut self, sigproc: &SignalProcessing) -> (r: Result<(), AnimationError>)
        requires
            old(self).wf(),
            sigproc.wf(),
            sigproc.samp_rate >= 2 * FREQ_AIR_HI,
        ensures
            r.is_ok(),
            final(self).wf(),
            final(self).colorlists.strips() == old(self).colorlists.strips(),
            final(self).colorlists.leds() == old(self).colorlists.leds(),
            final(self).colorlists@.len() == old(self).colorlists@.len(),
            final(self).fade_factor == old(self).fade_factor,
            final(self).avg_leds_activated == old(self).avg_leds_activated,
            final(self).white_extra_scale == old(self).white_extra_scale,
            final(self).condensation_factor == old(self).condensation_factor,
            final(self).spark_fade_step == old(self).spark_fade_step,
            final(self).vspeed_mids == old(self).vspeed_mids,
            final(self).vspeed_highs == old(self).vspeed_highs,
            final(self).vspeed_xhighs == old(self).vspeed_xhighs,
            final(self).tracker.cooldown == old(self).tracker.cooldown,
            final(self).tracker.rgb_exp_q == old(self).tracker.rgb_exp_q,
            final(self).tracker.w_exp_q == old(self).tracker.w_exp_q,
            // the adaptive ceiling decays and snaps up to the fresh reading
            forall|i: int| 0 <= i < 4 ==> chan(final(self).tracker.max_energy, i) == old(
                self,
            ).tick_ceiling(sigproc, i),
            // the queue: every old spark stepped once, the expired prefix
            // dropped, and exactly three fresh sparks at the tail
            final(self).sparks@.len() >= 3,
            !final(self).sparks@[0].has_expired,
            ({
                let stepped = sparks_stepped(
                    old(self).sparks@,
                    old(self).spark_fade_step,
                    old(self).lps(),
                );
                let m = final(self).sparks@.len();
                let dropped = stepped.len() + 3 - m;
                &&& m <= stepped.len() + 3
                &&& dropped <= stepped.len()
                &&& (forall|j: int| 0 <= j < dropped ==> stepped[j].has_expired)
                &&& (forall|j: int| 0 <= j < m - 3 ==> final(self).sparks@[j] == stepped[dropped
                    + j])
                &&& old(self).is_mid_spawn(
                    final(self).sparks@[m - 3],
                    old(self).tick_norm(sigproc, 1),
                )
                &&& old(self).is_end_spawn(
                    final(self).sparks@[m - 2],
                    old(self).tick_norm(sigproc, 2),
                    old(self).vspeed_highs as int,
                    Color { r: 0u64, g: 0u64, b: FP_ONE, w: 0u64 },
                )
                &&& old(self).is_end_spawn(
                    final(self).sparks@[m - 1],
                    fp_mul_spec(
                        old(self).tick_norm(sigproc, 3),
                        old(self).white_extra_scale as int,
                    ),
                    old(self).vspeed_xhighs as int,
                    Color { r: 0u64, g: 0u64, b: 0u64, w: FP_ONE },
                )
            }),
            // the buffer: bass scattered over the faded grid (by exactly
            // the bass budget), every live spark blended in, then clamped
            exists|scattered: Seq<Color>|
                {
                    let faded_cells = faded(old(self).colorlists@, old(self).fade_factor as int);
                    &&& #[trigger] scattered.len() == old(self).colorlists@.len()
                    &&& chan_sum(scattered, 0) == chan_sum(faded_cells, 0) + old(self).bass_budget(
                        sigproc,
                    )
                    &&& (forall|j: int| 0 <= j < scattered.len() ==> same_except(
                        #[trigger] scattered[j],
                        faded_cells[j],
                        0,
                    ))
                    &&& final(self).colorlists@ == limit_map(
                        blend_sparks(scattered, final(self).sparks@, old(self).lps()),
                    )
                },
    {
        let cur = sigproc.get_band_energies();
        let norm = self.tracker.update(&cur);

        // fade the whole buffer toward black
        proof {
            assert(cells_le(self.colorlists@, crate::animation::CELL_CAP as int));
        }
        self.colorlists.scale_all(self.fade_factor);
        let ghost faded_seq = self.colorlists@;
        proof {
            assert(faded_seq =~= faded(old(self).colorlists@, old(self).fade_factor as int));
            assert forall|i: int| 0 <= i < faded_seq.len() implies chan(#[trigger] faded_seq[i], 0)
                <= ACC_LIMIT as int by {
                lemma_fp_mul_unit(
                    chan(old(self).colorlists@[i], 0) as int,
                    old(self).fade_factor as int,
                );
            }
        }

        // the bass channel runs through the particle-diffusion scatter
        let total64 = self.colorlists.len() as u64;
        proof {
            lemma_fp_mul_le_rhs(norm.r as int, (self.avg_leds_activated * total64) as int);
            lemma_mul_le(
                norm.r as int,
                (self.avg_leds_activated * total64) as int,
                FP_ONE as int,
                BUDGET_MAX as int,
            );
        }
        let act = self.avg_leds_activated * total64;
        let bass_budget = fp_mul(norm.r, act);
        scatter_energy(&mut self.colorlists, 0, norm.r, bass_budget, self.condensation_factor);
        let ghost scattered_seq = self.colorlists@;
        proof {
            assert(chan(cur, 0) == sigproc.band_of(0));
            assert(chan(cur, 1) == sigproc.band_of(1));
            assert(chan(cur, 2) == sigproc.band_of(2));
            assert(chan(cur, 3) == sigproc.band_of(3));
            assert(chan(self.tracker.max_energy, 0) == old(self).tick_ceiling(sigproc, 0));
            assert(chan(self.tracker.max_energy, 1) == old(self).tick_ceiling(sigproc, 1));
            assert(chan(self.tracker.max_energy, 2) == old(self).tick_ceiling(sigproc, 2));
            assert(chan(self.tracker.max_energy, 3) == old(self).tick_ceiling(sigproc, 3));
            assert(chan(norm, 0) == old(self).tick_norm(sigproc, 0));
            assert(chan(norm, 1) == old(self).tick_norm(sigproc, 1));
            assert(chan(norm, 2) == old(self).tick_norm(sigproc, 2));
            assert(chan(norm, 3) == old(self).tick_norm(sigproc, 3));
            assert(bass_budget == old(self).bass_budget(sigproc));
        }

        // advance every existing spark by one tick, keeping queue order
        let ghost pre = *self;
        let len = self.sparks.len();
        let ghost q0 = self.sparks@;
        let ghost stepped = sparks_stepped(q0, self.spark_fade_step, self.lps());
        let lps = self.colorlists.leds_per_strip();
        let num_strips = self.colorlists.num_strips();
        proof {
            assert(1 <= lps as int <= MAX_LEDS_TOTAL as int) by (nonlinear_arith)
                requires
                    1 <= lps as int,
                    1 <= self.colorlists.strips(),
                    (self.colorlists.strips()) * (lps as int) <= MAX_LEDS_TOTAL as int;
        }
        let mut i: usize = 0;
        while i < len
            invariant
                i <= len,
                len == q0.len(),
                *self == (Sparkles { sparks: self.sparks, ..pre }),
                q0 == pre.sparks@,
                lps == pre.lps(),
                1 <= lps as int <= MAX_LEDS_TOTAL as int,
                1 <= pre.spark_fade_step <= FP_ONE,
                sparks_wf(q0, pre.colorlists.strips(), pre.lps()),
                stepped == sparks_stepped(q0, pre.spark_fade_step, pre.lps()),
                self.sparks@ == q0.skip(i as int) + stepped.take(i as int),
            decreases len - i,
        {
            let sopt = self.sparks.pop_front();
            let mut sp = sopt.unwrap();
            proof {
                assert((q0.skip(i as int) + stepped.take(i as int))[0] == q0[i as int]);
                assert(spark_wf(q0[i as int], pre.colorlists.strips(), pre.lps()));
            }
            sp.update(self.spark_fade_step, lps);
            self.sparks.push_back(sp);
            proof {
                assert(self.sparks@ =~= q0.skip(i as int + 1) + stepped.take(i as int + 1));
            }
            i += 1;
        }
        proof {
            assert(self.sparks@ =~= stepped);
        }

        // spawn: one green mid spark from the strip center, one blue and
        // one white spark from a random strip end moving inward
        let mid_led: i64 = ((lps as i64) * (FP_ONE as i64) - (FP_ONE as i64)) / 2;
        let top_led: i64 = ((lps - 1) as i64) * (FP_ONE as i64);
        proof {
            assert((lps as int) * (FP_ONE as int) <= 0x10_0000_0000) by (nonlinear_arith)
                requires 1 <= lps <= MAX_LEDS_TOTAL as int;
            assert(0 <= mid_led < (lps as int) * (FP_ONE as int)) by (nonlinear_arith)
                requires
                    1 <= lps,
                    mid_led == ((lps as int) * (FP_ONE as int) - (FP_ONE as int)) / 2;
            assert(0 <= top_led < (lps as int) * (FP_ONE as int)) by (nonlinear_arith)
                requires 1 <= lps && top_led == ((lps as int) - 1) * (FP_ONE as int);
        }
        let vs_mid: i64 = if random_bool() {
            self.vspeed_mids as i64
        } else {
            -(self.vspeed_mids as i64)
        };
        let strip_mid = random_below(num_strips as u64) as u16;
        let smid = Spark::new(
            vs_mid,
            norm.g,
            Color { r: 0, g: FP_ONE, b: 0, w: 0 },
            strip_mid,
            mid_led,
        );
        self.sparks.push_back(smid);

        let from_top_b = random_bool();
        let (led_b, vs_b): (i64, i64) = if from_top_b {
            (top_led, -(self.vspeed_highs as i64))
        } else {
            (0, self.vspeed_highs as i64)
        };
        let strip_b = random_below(num_strips as u64) as u16;
        let sblue = Spark::new(vs_b, norm.b, Color { r: 0, g: 0, b: FP_ONE, w: 0 }, strip_b, led_b);
        self.sparks.push_back(sblue);

        proof {
            lemma_fp_mul_unit(norm.w as int, self.white_extra_scale as int);
        }
        let wbright = fp_mul(norm.w, self.white_extra_scale);
        let from_top_w = random_bool();
        let (led_w, vs_w): (i64, i64) = if from_top_w {
            (top_led, -(self.vspeed_xhighs as i64))
        } else {
            (0, self.vspeed_xhighs as i64)
        };
        let strip_w = random_below(num_strips as u64) as u16;
        let swhite = Spark::new(
            vs_w,
            wbright,
            Color { r: 0, g: 0, b: 0, w: FP_ONE },
            strip_w,
            led_w,
        );
        self.sparks.push_back(swhite);

        let ghost q1 = self.sparks@;
        proof {
            assert(q1 =~= stepped + seq![smid, sblue, swhite]);
            assert forall|j: int| 0 <= j < stepped.len() implies spark_wf(
                #[trigger] stepped[j],
                pre.colorlists.strips(),
                pre.lps(),
            ) by {
                lemma_spark_step_wf(
                    q0[j],
                    pre.spark_fade_step,
                    pre.colorlists.strips(),
                    pre.lps(),
                );
            }
            assert(spark_wf(smid, pre.colorlists.strips(), pre.lps()));
            assert(spark_wf(sblue, pre.colorlists.strips(), pre.lps()));
            assert(spark_wf(swhite, pre.colorlists.strips(), pre.lps()));
            assert(sparks_wf(q1, pre.colorlists.strips(), pre.lps()));
        }

        // lazy compaction: drop expired sparks from the front only
        let ghost mut dropped: int = 0;
        while self.sparks.len() > 0 && self.sparks[0].has_expired()
            invariant
                0 <= dropped <= q1.len(),
                self.sparks@ == q1.skip(dropped),
                forall|j: int| 0 <= j < dropped ==> q1[j].has_expired,
                *self == (Sparkles { sparks: self.sparks, ..pre }),
            decreases q1.len() - dropped,
        {
            self.sparks.pop_front();
            proof {
                assert(q1.skip(dropped).drop_first() =~= q1.skip(dropped + 1));
                dropped = dropped + 1;
            }
        }
        proof {
            lemma_drop_prefix(q1, dropped);
            // the three fresh sparks are live, so at most the stepped
            // prefix can have been dropped
            if dropped > stepped.len() {
                assert(q1[stepped.len() as int].has_expired);
                assert(q1[stepped.len() as int] == smid);
                assert(false);
            }
        }
        let ghost qf = self.sparks@;

        // render every remaining spark on top of the scattered bass
        let cnt = self.sparks.len();
        let mut j: usize = 0;
        while j < cnt
            invariant
                j <= cnt,
                cnt == qf.len(),
                self.sparks@ == qf,
                sparks_wf(qf, pre.colorlists.strips(), pre.lps()),
                self.colorlists.wf(),
                self.colorlists.strips() == pre.colorlists.strips(),
                self.colorlists.leds() == pre.colorlists.leds(),
                self.fade_factor == pre.fade_factor,
                self.avg_leds_activated == pre.avg_leds_activated,
                self.white_extra_scale == pre.white_extra_scale,
                self.condensation_factor == pre.condensation_factor,
                self.spark_fade_step == pre.spark_fade_step,
                self.vspeed_mids == pre.vspeed_mids,
                self.vspeed_highs == pre.vspeed_highs,
                self.vspeed_xhighs == pre.vspeed_xhighs,
                self.tracker == pre.tracker,
                self.colorlists@ == blend_sparks(scattered_seq, qf.take(j as int), pre.lps()),
            decreases cnt - j,
        {
            let sp = self.sparks[j];
            proof {
                lemma_blend_take(scattered_seq, qf, pre.lps(), j as int);
            }
            sp.render(&mut self.colorlists);
            j += 1;
        }
        proof {
            assert(qf.take(cnt as int) =~= qf);
        }

        // final clamp pass
        self.colorlists.limit_all();
        proof {
            assert(self.colorlists@ =~= limit_map(blend_sparks(scattered_seq, qf, pre.lps())));
            let m = qf.len() as int;
            assert(m == stepped.len() + 3 - dropped);
            assert(dropped <= stepped.len());
            assert forall|j2: int| 0 <= j2 < dropped implies stepped[j2].has_expired by {
                assert(q1[j2] == stepped[j2]);
            }
            assert forall|j2: int| 0 <= j2 < m - 3 implies qf[j2] == stepped[dropped + j2] by {
                assert(qf[j2] == q1[dropped + j2]);
            }
            assert(qf[m - 3] == q1[stepped.len() as int]);
            assert(qf[m - 2] == q1[stepped.len() as int + 1]);
            assert(qf[m - 1] == q1[stepped.len() as int + 2]);
            assert(qf[m - 3] == smid);
            assert(qf[m - 2] == sblue);
            assert(qf[m - 1] == swhite);
            assert(old(self).is_mid_spawn(smid, old(self).tick_norm(sigproc, 1)));
            assert(old(self).is_end_spawn(
                sblue,
                old(self).tick_norm(sigproc, 2),
                old(self).vspeed_highs as int,
                Color { r: 0u64, g: 0u64, b: FP_ONE, w: 0u64 },
            ));
            assert(old(self).is_end_spawn(
                swhite,
                fp_mul_spec(old(self).tick_norm(sigproc, 3), old(self).white_extra_scale as int),
                old(self).vspeed_xhighs as int,
                Color { r: 0u64, g: 0u64, b: 0u64, w: FP_ONE },
            ));
        }
        Ok(())
    }
}

impl crate::animation::Animation for Sparkles {
    open spec fn well_formed(&self) -> bool {
        self.wf()
    }

    open spec fn strip_count(&self) -> int {
        self.colorlists.strips()
    }

    open spec fn led_count(&self) -> int {
        self.colorlists.leds()
    }

    open spec fn colors(&self) -> Seq<Color> {
        self.colorlists@
    }

    fn init(&mut self) -> (r: Result<(), AnimationError>) {
        Sparkles::init(self)
    }

    fn periodic(&mut self, sigproc: &SignalProcessing) -> (r: Result<(), AnimationError>) {
        Sparkles::periodic(self, sigproc)
    }

    fn get_colorlist(&self) -> (b: &ColorBuffer) {
        Sparkles::get_colorlist(self)
    }
}

} // verus!
