//! Adaptive gain control: per-channel ceilings that decay and snap up to
//! the current reading, and (for the racer animation) floors that relax
//! toward half the ceiling and snap down, with a two-stage low-pass filter.

use vstd::prelude::*;
use crate::animation::{Color, color_le, chan};
use crate::fixed::{
    FP_ONE, fp_mul_spec, fp_div_spec, fp_powq_spec, fp_mul, fp_div, fp_pow_quarters, lemma_mul_le,
    lemma_fp_div_unit, lemma_fp_mul_unit,
};
use crate::signal_processing::MAG_CAP;

verus! {

/// The ceiling after one cooldown step, never below one quantum.
pub open spec fn decay_spec(c: int, cooldown: int) -> int {
    let d = fp_mul_spec(c, cooldown);
    if d < 1 {
        1
    } else {
        d
    }
}

/// One ceiling update: cooldown decay, then snap up to the reading.
pub open spec fn snap_up_spec(c: int, cur: int, cooldown: int) -> int {
    let d = decay_spec(c, cooldown);
    if cur > d {
        cur
    } else {
        d
    }
}

/// One floor relaxation step toward `target` by the fraction `coeff`.
pub open spec fn relax_spec(m: int, target: int, coeff: int) -> int {
    if target >= m {
        m + fp_mul_spec(target - m, coeff)
    } else {
        m - fp_mul_spec(m - target, coeff)
    }
}

/// Snap the floor down to the reading if the reading is below it.
pub open spec fn snap_down_spec(m: int, cur: int) -> int {
    if cur < m {
        cur
    } else {
        m
    }
}

/// Normalization against a ceiling: `(cur / ceil) ^ (q/4)`.
pub open spec fn normalize_spec(cur: int, ceil: int, q: nat) -> int {
    fp_powq_spec(fp_div_spec(cur, ceil), q)
}

/// One low-pass filter step with fixed-point coefficient `alpha`.
pub open spec fn lowpass_spec(f: int, n: int, alpha: int) -> int {
    (f * (FP_ONE as int - alpha) + n * alpha) / (FP_ONE as int)
}

/// Normalization against a ceiling/floor range: the reading's position in
/// `[floor, ceil]` raised to `q/4`, or zero when the range is empty.
pub open spec fn range_normalize_spec(cur: int, floor: int, ceil: int, q: nat) -> int {
    if ceil > floor {
        fp_powq_spec(fp_div_spec(cur - floor, ceil - floor), q)
    } else {
        0
    }
}

pub proof fn lemma_decay_bounds(c: int, cooldown: int) by (nonlinear_arith)
    requires
        1 <= c,
        0 <= cooldown <= FP_ONE as int,
    ensures
        1 <= decay_spec(c, cooldown) <= c,
{
}

pub proof fn lemma_lowpass_bounds(f: int, n: int, alpha: int, m: int) by (nonlinear_arith)
    requires
        0 <= f <= m,
        0 <= n <= m,
        0 <= alpha <= FP_ONE as int,
    ensures
        0 <= lowpass_spec(f, n, alpha) <= m,
{
}

proof fn lemma_relax_bounds(m: int, target: int, coeff: int) by (nonlinear_arith)
    requires
        0 <= m,
        0 <= target,
        0 <= coeff <= FP_ONE as int,
    ensures
        relax_spec(m, target, coeff) >= 0,
        relax_spec(m, target, coeff) <= (if m >= target { m } else { target }),
{
}

/// One cooldown-and-snap ceiling step; the new ceiling covers the current
/// reading and never exceeds the larger of the old ceiling and the reading.
fn track_ceiling(ceil: u64, cur: u64, cooldown: u64) -> (c2: u64)
    requires
        1 <= ceil <= MAG_CAP,
        cur <= MAG_CAP,
        cooldown <= FP_ONE,
    ensures
        c2 == snap_up_spec(ceil as int, cur as int, cooldown as int),
        1 <= c2 <= MAG_CAP,
        c2 >= cur,
        c2 <= (if ceil >= cur { ceil } else { cur }),
{
    proof {
        lemma_mul_le(ceil as int, cooldown as int, MAG_CAP as int, FP_ONE as int);
        lemma_decay_bounds(ceil as int, cooldown as int);
    }
    let mut d = fp_mul(ceil, cooldown);
    if d < 1 {
        d = 1;
    }
    if cur > d {
        cur
    } else {
        d
    }
}

/// Normalized drive `(cur / ceil) ^ (q/4)`, a unit-range value.
fn normalize_channel(cur: u64, ceil: u64, q: u8) -> (r: u64)
    requires
        1 <= ceil <= MAG_CAP,
        cur <= ceil,
        q <= 16,
    ensures
        r == normalize_spec(cur as int, ceil as int, q as nat),
        r <= FP_ONE,
{
    proof {
        lemma_mul_le(cur as int, FP_ONE as int, MAG_CAP as int, FP_ONE as int);
        lemma_fp_div_unit(cur as int, ceil as int);
    }
    let ratio = fp_div(cur, ceil);
    fp_pow_quarters(ratio, q)
}

/// Per-channel adaptive ceiling used by the particle and spark animations.
pub struct EnergyTracker {
    pub max_energy: Color,
    pub cooldown: u64,
    pub rgb_exp_q: u8,
    pub w_exp_q: u8,
}

impl EnergyTracker {
    pub open spec fn wf(&self) -> bool {
        &&& 1 <= self.max_energy.r <= MAG_CAP
        &&& 1 <= self.max_energy.g <= MAG_CAP
        &&& 1 <= self.max_energy.b <= MAG_CAP
        &&& 1 <= self.max_energy.w <= MAG_CAP
        &&& self.cooldown <= FP_ONE
        &&& self.rgb_exp_q <= 16
        &&& self.w_exp_q <= 16
    }

    /// The exponent (in quarter units) applied to channel `i`.
    pub open spec fn exp_of(&self, i: int) -> nat {
        if i == 3 {
            self.w_exp_q as nat
        } else {
            self.rgb_exp_q as nat
        }
    }

    pub fn new(cooldown: u64, rgb_exp_q: u8, w_exp_q: u8) -> (t: EnergyTracker)
        requires
            cooldown <= FP_ONE,
            rgb_exp_q <= 16,
            w_exp_q <= 16,
        ensures
            t.wf(),
            t.max_energy == (Color { r: FP_ONE, g: FP_ONE, b: FP_ONE, w: FP_ONE }),
            t.cooldown == cooldown,
            t.rgb_exp_q == rgb_exp_q,
            t.w_exp_q == w_exp_q,
    {
        EnergyTracker {
            max_energy: Color { r: FP_ONE, g: FP_ONE, b: FP_ONE, w: FP_ONE },
            cooldown,
            rgb_exp_q,
            w_exp_q,
        }
    }

    /// One analysis tick: decay each ceiling, snap it up to the current
    /// reading, and return the normalized drive per channel.
    ///
    /// The ceiling is monotonically non-increasing except for snap-ups:
    /// afterwards it is at least the reading and at most the larger of the
    /// old ceiling and the reading.
    pub fn update(&mut self, cur: &Color) -> (norm: Color)
        requires
            old(self).wf(),
            color_le(*cur, MAG_CAP as int),
        ensures
            final(self).wf(),
            final(self).cooldown == old(self).cooldown,
            final(self).rgb_exp_q == old(self).rgb_exp_q,
            final(self).w_exp_q == old(self).w_exp_q,
            forall|i: int| 0 <= i < 4 ==> chan(final(self).max_energy, i) == snap_up_spec(
                chan(old(self).max_energy, i) as int,
                chan(*cur, i) as int,
                old(self).cooldown as int,
            ),
            forall|i: int| 0 <= i < 4 ==> chan(final(self).max_energy, i) >= chan(*cur, i),
            forall|i: int| 0 <= i < 4 ==> (chan(final(self).max_energy, i) <= chan(
                old(self).max_energy,
                i,
            ) || chan(final(self).max_energy, i) <= chan(*cur, i)),
            forall|i: int| 0 <= i < 4 ==> chan(norm, i) == normalize_spec(
                chan(*cur, i) as int,
                chan(final(self).max_energy, i) as int,
                old(self).exp_of(i),
            ),
            color_le(norm, FP_ONE as int),
    {
        let cr = track_ceiling(self.max_energy.r, cur.r, self.cooldown);
        let cg = track_ceiling(self.max_energy.g, cur.g, self.cooldown);
        let cb = track_ceiling(self.max_energy.b, cur.b, self.cooldown);
        let cw = track_ceiling(self.max_energy.w, cur.w, self.cooldown);
        self.max_energy = Color { r: cr, g: cg, b: cb, w: cw };
        let norm = Color {
            r: normalize_channel(cur.r, cr, self.rgb_exp_q),
            g: normalize_channel(cur.g, cg, self.rgb_exp_q),
            b: normalize_channel(cur.b, cb, self.rgb_exp_q),
            w: normalize_channel(cur.w, cw, self.w_exp_q),
        };
        norm
    }
}

/// The racer variant: ceiling plus relaxing floor, and a fast/slow filter
/// pair decoupling motion speed from perceived brightness.
pub struct RacerTracker {
    pub max_energy: Color,
    pub min_energy: Color,
    pub filtered_energy: Color,
    pub filtered_brightness: Color,
    pub cooldown: u64,
    pub energy_alpha: u64,
    pub brightness_alpha: u64,
    pub rgb_exp_q: u8,
    pub w_exp_q: u8,
    pub w_scale: u64,
}

impl RacerTracker {
    pub open spec fn wf(&self) -> bool {
        &&& 1 <= self.max_energy.r <= MAG_CAP
        &&& 1 <= self.max_energy.g <= MAG_CAP
        &&& 1 <= self.max_energy.b <= MAG_CAP
        &&& 1 <= self.max_energy.w <= MAG_CAP
        &&& color_le(self.min_energy, MAG_CAP as int)
        &&& color_le(self.filtered_energy, MAG_CAP as int)
        &&& color_le(self.filtered_brightness, FP_ONE as int)
        &&& self.cooldown <= FP_ONE
        &&& self.energy_alpha <= FP_ONE
        &&& self.brightness_alpha <= FP_ONE
        &&& self.rgb_exp_q <= 16
        &&& self.w_exp_q <= 16
        &&& self.w_scale <= FP_ONE
    }

    pub open spec fn exp_of(&self, i: int) -> nat {
        if i == 3 {
            self.w_exp_q as nat
        } else {
            self.rgb_exp_q as nat
        }
    }

    /// The rendering scale of channel `i`: the air channel is subdued.
    pub open spec fn scale_of(&self, i: int) -> int {
        if i == 3 {
            self.w_scale as int
        } else {
            FP_ONE as int
        }
    }

    pub fn new(
        cooldown: u64,
        energy_alpha: u64,
        brightness_alpha: u64,
        rgb_exp_q: u8,
        w_exp_q: u8,
        w_scale: u64,
    ) -> (t: RacerTracker)
        requires
            cooldown <= FP_ONE,
            energy_alpha <= FP_ONE,
            brightness_alpha <= FP_ONE,
            rgb_exp_q <= 16,
            w_exp_q <= 16,
            w_scale <= FP_ONE,
        ensures
            t.wf(),
            t.max_energy == (Color { r: FP_ONE, g: FP_ONE, b: FP_ONE, w: FP_ONE }),
            t.min_energy == (Color { r: 0u64, g: 0u64, b: 0u64, w: 0u64 }),
            t.filtered_energy == (Color { r: 0u64, g: 0u64, b: 0u64, w: 0u64 }),
            t.filtered_brightness == (Color { r: 0u64, g: 0u64, b: 0u64, w: 0u64 }),
            t.cooldown == cooldown,
            t.energy_alpha == energy_alpha,
            t.brightness_alpha == brightness_alpha,
            t.rgb_exp_q == rgb_exp_q,
            t.w_exp_q == w_exp_q,
            t.w_scale == w_scale,
    {
        RacerTracker {
            max_energy: Color { r: FP_ONE, g: FP_ONE, b: FP_ONE, w: FP_ONE },
            min_energy: Color { r: 0, g: 0, b: 0, w: 0 },
            filtered_energy: Color { r: 0, g: 0, b: 0, w: 0 },
            filtered_brightness: Color { r: 0, g: 0, b: 0, w: 0 },
            cooldown,
            energy_alpha,
            brightness_alpha,
            rgb_exp_q,
            w_exp_q,
            w_scale,
        }
    }

    /// One analysis tick for one channel.  Returns the new filtered energy,
    /// ceiling, floor, slow-filtered brightness and the raw brightness.
    fn channel_step(&self, fe0: u64, mx0: u64, mn0: u64, fb0: u64, cur: u64, exp_q: u8, scale: u64)
        -> (out: (u64, u64, u64, u64, u64))
        requires
            self.wf(),
            fe0 <= MAG_CAP,
            1 <= mx0 <= MAG_CAP,
            mn0 <= MAG_CAP,
            fb0 <= FP_ONE,
            cur <= MAG_CAP,
            exp_q <= 16,
            scale <= FP_ONE,
        ensures
            out.0 == lowpass_spec(fe0 as int, cur as int, self.energy_alpha as int),
            out.1 == snap_up_spec(mx0 as int, out.0 as int, self.cooldown as int),
            out.2 == snap_down_spec(
                relax_spec(
                    mn0 as int,
                    out.1 as int / 2,
                    FP_ONE as int - self.cooldown as int,
                ),
                out.0 as int,
            ),
            out.4 == fp_mul_spec(
                range_normalize_spec(out.0 as int, out.2 as int, out.1 as int, exp_q as nat),
                scale as int,
            ),
            out.3 == lowpass_spec(fb0 as int, out.4 as int, self.brightness_alpha as int),
            out.0 <= MAG_CAP,
            1 <= out.1 <= MAG_CAP,
            out.2 <= out.0 <= out.1,
            out.3 <= FP_ONE,
            out.4 <= FP_ONE,
    {
        // fast filter on the raw reading
        proof {
            lemma_mul_le(fe0 as int, FP_ONE as int, MAG_CAP as int, FP_ONE as int);
            lemma_mul_le(cur as int, FP_ONE as int, MAG_CAP as int, FP_ONE as int);
            lemma_lowpass_bounds(fe0 as int, cur as int, self.energy_alpha as int, MAG_CAP as int);
        }
        let fe = (fe0 * (FP_ONE - self.energy_alpha) + cur * self.energy_alpha) / FP_ONE;
        // ceiling: cooldown decay, snap up to the filtered reading
        let mx = track_ceiling(mx0, fe, self.cooldown);
        // floor: relax toward half the ceiling, snap down to the reading
        let target = mx / 2;
        let coeff = FP_ONE - self.cooldown;
        proof {
            lemma_mul_le(
                if target >= mn0 { (target - mn0) as int } else { (mn0 - target) as int },
                coeff as int,
                MAG_CAP as int,
                FP_ONE as int,
            );
            lemma_relax_bounds(mn0 as int, target as int, coeff as int);
        }
        let relaxed = if target >= mn0 {
            proof {
                lemma_mul_le((target - mn0) as int, coeff as int, MAG_CAP as int, FP_ONE as int);
            }
            mn0 + fp_mul(target - mn0, coeff)
        } else {
            proof {
                lemma_mul_le((mn0 - target) as int, coeff as int, MAG_CAP as int, FP_ONE as int);
                assert(fp_mul_spec((mn0 - target) as int, coeff as int) <= mn0 - target)
                    by (nonlinear_arith)
                    requires 0 <= (mn0 - target) as int && 0 <= coeff <= FP_ONE as int;
            }
            mn0 - fp_mul(mn0 - target, coeff)
        };
        let mn = if fe < relaxed {
            fe
        } else {
            relaxed
        };
        // raw brightness: position of the reading in [floor, ceiling]
        let br_unscaled = if mx > mn {
            proof {
                lemma_mul_le((fe - mn) as int, FP_ONE as int, MAG_CAP as int, FP_ONE as int);
                lemma_fp_div_unit((fe - mn) as int, (mx - mn) as int);
            }
            let ratio = fp_div(fe - mn, mx - mn);
            fp_pow_quarters(ratio, exp_q)
        } else {
            0
        };
        proof {
            lemma_fp_mul_unit(br_unscaled as int, scale as int);
        }
        let br = fp_mul(br_unscaled, scale);
        // slow filter decoupling perceived brightness from motion speed
        proof {
            lemma_mul_le(fb0 as int, FP_ONE as int, FP_ONE as int, FP_ONE as int);
            lemma_mul_le(br as int, FP_ONE as int, FP_ONE as int, FP_ONE as int);
            lemma_lowpass_bounds(fb0 as int, br as int, self.brightness_alpha as int, FP_ONE as int);
        }
        let fb = (fb0 * (FP_ONE - self.brightness_alpha) + br * self.brightness_alpha) / FP_ONE;
        (fe, mx, mn, fb, br)
    }

    /// One analysis tick: filter the reading, update ceiling and floor, and
    /// return the raw normalized brightness per channel (the motion drive).
    /// The slow-filtered rendering brightness is left in
    /// `filtered_brightness`.
    pub fn update(&mut self, cur: &Color) -> (drive: Color)
        requires
            old(self).wf(),
            color_le(*cur, MAG_CAP as int),
        ensures
            final(self).wf(),
            final(self).cooldown == old(self).cooldown,
            final(self).energy_alpha == old(self).energy_alpha,
            final(self).brightness_alpha == old(self).brightness_alpha,
            final(self).rgb_exp_q == old(self).rgb_exp_q,
            final(self).w_exp_q == old(self).w_exp_q,
            final(self).w_scale == old(self).w_scale,
            forall|i: int| 0 <= i < 4 ==> chan(final(self).filtered_energy, i) == lowpass_spec(
                chan(old(self).filtered_energy, i) as int,
                chan(*cur, i) as int,
                old(self).energy_alpha as int,
            ),
            forall|i: int| 0 <= i < 4 ==> chan(final(self).max_energy, i) == snap_up_spec(
                chan(old(self).max_energy, i) as int,
                chan(final(self).filtered_energy, i) as int,
                old(self).cooldown as int,
            ),
            forall|i: int| 0 <= i < 4 ==> chan(final(self).min_energy, i) == snap_down_spec(
                relax_spec(
                    chan(old(self).min_energy, i) as int,
                    chan(final(self).max_energy, i) as int / 2,
                    FP_ONE as int - old(self).cooldown as int,
                ),
                chan(final(self).filtered_energy, i) as int,
            ),
            forall|i: int| 0 <= i < 4 ==> chan(drive, i) == fp_mul_spec(
                range_normalize_spec(
                    chan(final(self).filtered_energy, i) as int,
                    chan(final(self).min_energy, i) as int,
                    chan(final(self).max_energy, i) as int,
                    old(self).exp_of(i),
                ),
                old(self).scale_of(i),
            ),
            forall|i: int| 0 <= i < 4 ==> chan(final(self).filtered_brightness, i) == lowpass_spec(
                chan(old(self).filtered_brightness, i) as int,
                chan(drive, i) as int,
                old(self).brightness_alpha as int,
            ),
            forall|i: int| 0 <= i < 4 ==> #[trigger] chan(final(self).min_energy, i) <= chan(
                final(self).filtered_energy,
                i,
            ) <= chan(final(self).max_energy, i),
            color_le(drive, FP_ONE as int),
    {
        let (fer, mxr, mnr, fbr, brr) = self.channel_step(
            self.filtered_energy.r,
            self.max_energy.r,
            self.min_energy.r,
            self.filtered_brightness.r,
            cur.r,
            self.rgb_exp_q,
            FP_ONE,
        );
        let (feg, mxg, mng, fbg, brg) = self.channel_step(
            self.filtered_energy.g,
            self.max_energy.g,
            self.min_energy.g,
            self.filtered_brightness.g,
            cur.g,
            self.rgb_exp_q,
            FP_ONE,
        );
        let (feb, mxb, mnb, fbb, brb) = self.channel_step(
            self.filtered_energy.b,
            self.max_energy.b,
            self.min_energy.b,
            self.filtered_brightness.b,
            cur.b,
            self.rgb_exp_q,
            FP_ONE,
        );
        let (few, mxw, mnw, fbw, brw) = self.channel_step(
            self.filtered_energy.w,
            self.max_energy.w,
            self.min_energy.w,
            self.filtered_brightness.w,
            cur.w,
            self.w_exp_q,
            self.w_scale,
        );
        self.filtered_energy = Color { r: fer, g: feg, b: feb, w: few };
        self.max_energy = Color { r: mxr, g: mxg, b: mxb, w: mxw };
        self.min_energy = Color { r: mnr, g: mng, b: mnb, w: mnw };
        self.filtered_brightness = Color { r: fbr, g: fbg, b: fbb, w: fbw };
        Color { r: brr, g: brg, b: brb, w: brw }
    }
}

} // verus!
