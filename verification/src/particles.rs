//! Stochastic particle diffusion: a persistent per-LED energy accumulator
//! fades exponentially each tick, and every channel's normalized drive is
//! scattered over randomly chosen LEDs in large condensed deposits whose
//! total equals the channel's deposit budget exactly.

use vstd::prelude::*;
use crate::animation::{
    AnimationError, Color, ColorBuffer, chan, chan_sum, color_le, cells_le, color_scaled,
    color_limited, all_limited, same_except, lemma_chan_sum_update, lemma_chan_sum_congruence,
};
use crate::fixed::{FP_ONE, fp_mul, fp_mul_spec, lemma_mul_le, lemma_fp_mul_le_rhs};
use crate::tracker::{EnergyTracker, snap_up_spec, normalize_spec};
use crate::signal_processing::{SignalProcessing, FREQ_AIR_HI};
use crate::rng::{random_below, random_fraction};

verus! {

/// Ceiling cooldown factor per tick (about 0.9998).
pub const PARTICLES_COOLDOWN: u64 = 65523;

/// Normalization exponent for R, G and B, in quarter units (1.75).
pub const PARTICLES_RGB_EXP_Q: u8 = 7;

/// Normalization exponent for the air channel, in quarter units (2.25).
pub const PARTICLES_W_EXP_Q: u8 = 9;

/// Accumulator fade factor per tick (about 0.98).
pub const PARTICLES_FADE: u64 = 64225;

/// Fraction of all LEDs activated per unit drive (about 0.02).
pub const PARTICLES_AVG_ACTIVATED: u64 = 1310;

/// Extra attenuation of the perceptually brighter white LEDs (0.5).
pub const PARTICLES_WHITE_SCALE: u64 = 32768;

/// Bias constant making deposits large relative to the budget (5.0).
pub const PARTICLES_CONDENSATION: u64 = 327680;

/// Upper bound on one channel's deposit budget.
pub const BUDGET_MAX: u64 = 0x8000_0000;

/// Upper bound on one accumulator channel.  One fade step from here leaves
/// room for a full budget, so the bound is preserved tick over tick.
pub const ACC_LIMIT: u64 = 0x8000_0000_0000;

/// Upper bound accepted for the condensation factor (16.0).
pub const CONDENSATION_MAX: u64 = 0x10_0000;

/// The grid `s` faded channel-wise by the fixed-point factor `f`.
pub open spec fn faded(s: Seq<Color>, f: int) -> Seq<Color> {
    Seq::new(s.len(), |i: int| color_scaled(s[i], f))
}

/// `c` with the white channel attenuated by `ws`.
pub open spec fn white_scaled(c: Color, ws: int) -> Color {
    Color { r: c.r, g: c.g, b: c.b, w: fp_mul_spec(c.w as int, ws) as u64 }
}

/// Every channel of every cell is at most `m` in channel `c`.
pub open spec fn chan_le(s: Seq<Color>, c: int, m: int) -> bool {
    forall|i: int| 0 <= i < s.len() ==> chan(#[trigger] s[i], c) <= m
}

/// One fade step from the accumulator limit leaves room for a full budget.
proof fn lemma_fade_headroom(a: int, f: int) by (nonlinear_arith)
    requires
        0 <= a <= ACC_LIMIT as int,
        0 <= f < FP_ONE as int,
    ensures
        0 <= fp_mul_spec(a, f) <= ACC_LIMIT as int - BUDGET_MAX as int,
{
}

/// Distribute exactly `budget` over channel `coloridx` of the grid: while
/// budget remains, draw a deposit in `[0, drive * condensation)` (at least
/// one quantum, and clamped to the remaining budget) and add it to a
/// uniformly random cell.  The loop terminates because the budget strictly
/// decreases, and the total deposited equals the initial budget exactly.
#[verifier::loop_isolation(false)]
pub fn scatter_energy(
    buf: &mut ColorBuffer,
    coloridx: usize,
    drive: u64,
    budget: u64,
    condensation: u64,
) -> (deposited: u64)
    requires
        old(buf).wf(),
        coloridx < 4,
        drive <= FP_ONE,
        budget <= BUDGET_MAX,
        condensation <= CONDENSATION_MAX,
        chan_le(old(buf)@, coloridx as int, ACC_LIMIT as int),
    ensures
        deposited == budget,
        final(buf).wf(),
        final(buf).strips() == old(buf).strips(),
        final(buf).leds() == old(buf).leds(),
        final(buf)@.len() == old(buf)@.len(),
        chan_sum(final(buf)@, coloridx as int) == chan_sum(old(buf)@, coloridx as int)
            + budget,
        forall|i: int| 0 <= i < old(buf)@.len() ==> chan(old(buf)@[i], coloridx as int) <= chan(
            #[trigger] final(buf)@[i],
            coloridx as int,
        ) <= chan(old(buf)@[i], coloridx as int) + budget,
        forall|i: int| 0 <= i < old(buf)@.len() ==> same_except(
            #[trigger] final(buf)@[i],
            old(buf)@[i],
            coloridx as int,
        ),
{
    let num_strips = buf.num_strips();
    let leds_per_strip = buf.leds_per_strip();
    let mut remaining = budget;
    while remaining > 0
        invariant
            buf.wf(),
            coloridx < 4,
            drive <= FP_ONE,
            condensation <= CONDENSATION_MAX,
            budget <= BUDGET_MAX,
            remaining <= budget,
            num_strips == buf.strips(),
            leds_per_strip == buf.leds(),
            buf.strips() == old(buf).strips(),
            buf.leds() == old(buf).leds(),
            buf@.len() == old(buf)@.len(),
            chan_sum(buf@, coloridx as int) == chan_sum(old(buf)@, coloridx as int) + budget
                - remaining,
            forall|i: int| 0 <= i < old(buf)@.len() ==> chan(old(buf)@[i], coloridx as int)
                <= chan(#[trigger] buf@[i], coloridx as int) <= chan(
                old(buf)@[i],
                coloridx as int,
            ) + (budget - remaining),
            forall|i: int| 0 <= i < old(buf)@.len() ==> same_except(
                #[trigger] buf@[i],
                old(buf)@[i],
                coloridx as int,
            ),
        decreases remaining,
    {
        let frac = random_fraction() as u64;
        proof {
            lemma_mul_le(frac as int, drive as int, FP_ONE as int, FP_ONE as int);
            lemma_fp_mul_le_rhs(fp_mul_spec(frac as int, drive as int), condensation as int);
            assert(fp_mul_spec(frac as int, drive as int) <= FP_ONE as int) by (nonlinear_arith)
                requires 0 <= frac <= FP_ONE as int && 0 <= drive <= FP_ONE as int;
            lemma_mul_le(
                fp_mul_spec(frac as int, drive as int),
                condensation as int,
                FP_ONE as int,
                CONDENSATION_MAX as int,
            );
        }
        let mut rnd_energy = fp_mul(fp_mul(frac, drive), condensation);
        // a zero draw would stall the budget; deposit at least one quantum
        if rnd_energy == 0 {
            rnd_energy = 1;
        }
        let rnd_strip = random_below(num_strips as u64) as usize;
        let rnd_led = random_below(leds_per_strip as u64) as usize;
        let ghost rem0 = remaining;
        if rnd_energy > remaining {
            rnd_energy = remaining;
            remaining = 0;
        } else {
            remaining = remaining - rnd_energy;
        }
        proof {
            assert(rnd_energy <= rem0);
            assert(remaining == rem0 - rnd_energy);
            buf.lemma_flat_in_range(rnd_strip as int, rnd_led as int);
        }
        let idx = rnd_strip * leds_per_strip + rnd_led;
        let mut cell = buf.get_flat(idx);
        let v = cell.channel(coloridx);
        proof {
            assert(chan(buf@[idx as int], coloridx as int) <= chan(
                old(buf)@[idx as int],
                coloridx as int,
            ) + (budget - rem0));
            assert(chan(old(buf)@[idx as int], coloridx as int) <= ACC_LIMIT as int);
        }
        cell.set_channel(coloridx, v + rnd_energy);
        proof {
            lemma_chan_sum_update(buf@, coloridx as int, idx as int, cell);
        }
        buf.set_flat(idx, cell);
    }
    budget
}

/// The particle-diffusion animation.
pub struct Particles {
    pub energy: ColorBuffer,
    pub tracker: EnergyTracker,
    pub colorlists: ColorBuffer,
    pub fade_factor: u64,
    pub avg_leds_activated: u64,
    pub white_extra_scale: u64,
    pub condensation_factor: u64,
}

impl Particles {
    pub open spec fn wf(&self) -> bool {
        &&& self.energy.wf()
        &&& self.colorlists.wf()
        &&& self.colorlists.strips() == self.energy.strips()
        &&& self.colorlists.leds() == self.energy.leds()
        &&& self.tracker.wf()
        &&& self.fade_factor < FP_ONE
        &&& self.avg_leds_activated <= FP_ONE
        &&& self.white_extra_scale <= FP_ONE
        &&& self.condensation_factor <= CONDENSATION_MAX
        &&& (self.avg_leds_activated as int) * self.energy@.len() <= BUDGET_MAX as int
        &&& cells_le(self.energy@, ACC_LIMIT as int)
        &&& all_limited(self.colorlists@)
    }

    /// The deposit budget for one channel: drive times the activation
    /// fraction of the whole grid.
    pub open spec fn budget_spec(&self, norm: int) -> int {
        fp_mul_spec(norm, (self.avg_leds_activated as int) * self.energy@.len())
    }

    pub fn new(num_strips: usize, leds_per_strip: usize) -> (p: Particles)
        requires
            1 <= num_strips,
            1 <= leds_per_strip,
            num_strips * leds_per_strip <= crate::animation::MAX_LEDS_TOTAL as int,
        ensures
            p.wf(),
            p.energy.strips() == num_strips,
            p.energy.leds() == leds_per_strip,
            forall|i: int| 0 <= i < p.energy@.len() ==> #[trigger] p.energy@[i] == (Color {
                r: 0u64,
                g: 0u64,
                b: 0u64,
                w: 0u64,
            }),
            p.tracker.max_energy == (Color { r: FP_ONE, g: FP_ONE, b: FP_ONE, w: FP_ONE }),
            p.fade_factor == PARTICLES_FADE,
            p.avg_leds_activated == PARTICLES_AVG_ACTIVATED,
            p.white_extra_scale == PARTICLES_WHITE_SCALE,
            p.condensation_factor == PARTICLES_CONDENSATION,
    {
        let energy = ColorBuffer::new(num_strips, leds_per_strip);
        let colorlists = ColorBuffer::new(num_strips, leds_per_strip);
        proof {
            lemma_mul_le(
                PARTICLES_AVG_ACTIVATED as int,
                energy@.len() as int,
                FP_ONE as int,
                crate::animation::MAX_LEDS_TOTAL as int,
            );
        }
        Particles {
            energy,
            tracker: EnergyTracker::new(PARTICLES_COOLDOWN, PARTICLES_RGB_EXP_Q, PARTICLES_W_EXP_Q),
            colorlists,
            fade_factor: PARTICLES_FADE,
            avg_leds_activated: PARTICLES_AVG_ACTIVATED,
            white_extra_scale: PARTICLES_WHITE_SCALE,
            condensation_factor: PARTICLES_CONDENSATION,
        }
    }

    pub fn init(&mut self) -> (r: Result<(), AnimationError>)
        ensures
            *final(self) == *old(self),
            r.is_ok(),
    {
        Ok(())
    }

    /// One analysis tick: fade the accumulator, update the adaptive
    /// ceiling, scatter each channel's budget over random LEDs, and render
    /// the accumulator with the white channel subdued and a final clamp.
    pub fn periodic(&mut self, sigproc: &SignalProcessing) -> (r: Result<(), AnimationError>)
        requires
            old(self).wf(),
            sigproc.wf(),
            sigproc.samp_rate >= 2 * FREQ_AIR_HI,
        ensures
            r.is_ok(),
            final(self).wf(),
            final(self).energy.strips() == old(self).energy.strips(),
            final(self).energy.leds() == old(self).energy.leds(),
            final(self).energy@.len() == old(self).energy@.len(),
            final(self).fade_factor == old(self).fade_factor,
            final(self).avg_leds_activated == old(self).avg_leds_activated,
            final(self).white_extra_scale == old(self).white_extra_scale,
            final(self).condensation_factor == old(self).condensation_factor,
            final(self).tracker.cooldown == old(self).tracker.cooldown,
            final(self).tracker.rgb_exp_q == old(self).tracker.rgb_exp_q,
            final(self).tracker.w_exp_q == old(self).tracker.w_exp_q,
            // the ceiling decays and snaps up to the fresh band reading
            forall|i: int| 0 <= i < 4 ==> chan(final(self).tracker.max_energy, i)
                == snap_up_spec(
                chan(old(self).tracker.max_energy, i) as int,
                sigproc.band_of(i),
                old(self).tracker.cooldown as int,
            ),
            // each channel's accumulator sum grows over the faded grid by
            // exactly the channel's deposit budget
            forall|i: int| 0 <= i < 4 ==> #[trigger] chan_sum(final(self).energy@, i)
                == chan_sum(faded(old(self).energy@, old(self).fade_factor as int), i)
                + old(self).budget_spec(
                normalize_spec(
                    sigproc.band_of(i),
                    chan(final(self).tracker.max_energy, i) as int,
                    old(self).tracker.exp_of(i),
                ),
            ),
            // the rendered grid is the accumulator with the white channel
            // subdued, clamped into range
            final(self).colorlists@.len() == final(self).energy@.len(),
            forall|j: int| 0 <= j < final(self).energy@.len()
                ==> #[trigger] final(self).colorlists@[j] == color_limited(
                white_scaled(final(self).energy@[j], old(self).white_extra_scale as int),
            ),
            all_limited(final(self).colorlists@),
    {
        let cur = sigproc.get_band_energies();
        let norm = self.tracker.update(&cur);

        // fade the accumulator toward black
        proof {
            assert(cells_le(self.energy@, crate::animation::CELL_CAP as int));
        }
        self.energy.scale_all(self.fade_factor);
        let ghost faded_seq = self.energy@;
        proof {
            assert(faded_seq =~= faded(old(self).energy@, old(self).fade_factor as int));
            assert forall|i: int, c: int| 0 <= i < faded_seq.len() && 0 <= c < 4 implies #[trigger] chan(
                faded_seq[i],
                c,
            ) <= ACC_LIMIT as int - BUDGET_MAX as int by {
                lemma_fade_headroom(
                    chan(old(self).energy@[i], c) as int,
                    old(self).fade_factor as int,
                );
            }
        }

        // per-channel deposit budgets
        let total64 = self.energy.len() as u64;
        proof {
            lemma_fp_mul_le_rhs(norm.r as int, (self.avg_leds_activated * total64) as int);
            lemma_fp_mul_le_rhs(norm.g as int, (self.avg_leds_activated * total64) as int);
            lemma_fp_mul_le_rhs(norm.b as int, (self.avg_leds_activated * total64) as int);
            lemma_fp_mul_le_rhs(norm.w as int, (self.avg_leds_activated * total64) as int);
            lemma_mul_le(
                norm.r as int,
                (self.avg_leds_activated * total64) as int,
                FP_ONE as int,
                BUDGET_MAX as int,
            );
            lemma_mul_le(
                norm.g as int,
                (self.avg_leds_activated * total64) as int,
                FP_ONE as int,
                BUDGET_MAX as int,
            );
            lemma_mul_le(
                norm.b as int,
                (self.avg_leds_activated * total64) as int,
                FP_ONE as int,
                BUDGET_MAX as int,
            );
            lemma_mul_le(
                norm.w as int,
                (self.avg_leds_activated * total64) as int,
                FP_ONE as int,
                BUDGET_MAX as int,
            );
        }
        let act = self.avg_leds_activated * total64;
        let b0 = fp_mul(norm.r, act);
        let b1 = fp_mul(norm.g, act);
        let b2 = fp_mul(norm.b, act);
        let b3 = fp_mul(norm.w, act);

        // scatter each channel's budget over randomly chosen LEDs
        proof {
            assert(chan_le(self.energy@, 0, ACC_LIMIT as int));
        }
        scatter_energy(&mut self.energy, 0, norm.r, b0, self.condensation_factor);
        let ghost s0 = self.energy@;
        proof {
            assert forall|i: int| 0 <= i < s0.len() implies chan(#[trigger] s0[i], 1)
                <= ACC_LIMIT as int by {
                assert(same_except(s0[i], faded_seq[i], 0));
                assert(chan(faded_seq[i], 1) <= ACC_LIMIT as int - BUDGET_MAX as int);
            }
        }
        scatter_energy(&mut self.energy, 1, norm.g, b1, self.condensation_factor);
        let ghost s1 = self.energy@;
        proof {
            assert forall|i: int| 0 <= i < s1.len() implies chan(#[trigger] s1[i], 2)
                <= ACC_LIMIT as int by {
                assert(same_except(s1[i], s0[i], 1));
                assert(same_except(s0[i], faded_seq[i], 0));
                assert(chan(faded_seq[i], 2) <= ACC_LIMIT as int - BUDGET_MAX as int);
            }
        }
        scatter_energy(&mut self.energy, 2, norm.b, b2, self.condensation_factor);
        let ghost s2 = self.energy@;
        proof {
            assert forall|i: int| 0 <= i < s2.len() implies chan(#[trigger] s2[i], 3)
                <= ACC_LIMIT as int by {
                assert(same_except(s2[i], s1[i], 2));
                assert(same_except(s1[i], s0[i], 1));
                assert(same_except(s0[i], faded_seq[i], 0));
                assert(chan(faded_seq[i], 3) <= ACC_LIMIT as int - BUDGET_MAX as int);
            }
        }
        scatter_energy(&mut self.energy, 3, norm.w, b3, self.condensation_factor);
        let ghost s3 = self.energy@;
        proof {
            assert forall|i: int| 0 <= i < s3.len() implies color_le(
                #[trigger] s3[i],
                ACC_LIMIT as int,
            ) by {
                assert(same_except(s3[i], s2[i], 3));
                assert(same_except(s2[i], s1[i], 2));
                assert(same_except(s1[i], s0[i], 1));
                assert(same_except(s0[i], faded_seq[i], 0));
                assert(chan(faded_seq[i], 0) <= ACC_LIMIT as int - BUDGET_MAX as int);
                assert(chan(faded_seq[i], 1) <= ACC_LIMIT as int - BUDGET_MAX as int);
                assert(chan(faded_seq[i], 2) <= ACC_LIMIT as int - BUDGET_MAX as int);
                assert(chan(s3[i], 0) == chan(s0[i], 0));
                assert(chan(s3[i], 1) == chan(s1[i], 1));
                assert(chan(s3[i], 2) == chan(s2[i], 2));
                assert(chan(faded_seq[i], 3) <= ACC_LIMIT as int - BUDGET_MAX as int);
                assert(chan(s2[i], 3) == chan(faded_seq[i], 3));
                assert(chan(s3[i], 0) <= ACC_LIMIT as int);
                assert(chan(s3[i], 1) <= ACC_LIMIT as int);
                assert(chan(s3[i], 2) <= ACC_LIMIT as int);
                assert(chan(s3[i], 3) <= chan(s2[i], 3) + b3);
                assert(chan(s3[i], 3) <= ACC_LIMIT as int);
            }
        }
        proof {
            // each scatter leaves the other channels' sums untouched
            lemma_chan_sum_congruence(s1, s0, 0);
            lemma_chan_sum_congruence(s2, s1, 0);
            lemma_chan_sum_congruence(s3, s2, 0);
            lemma_chan_sum_congruence(s2, s1, 1);
            lemma_chan_sum_congruence(s3, s2, 1);
            lemma_chan_sum_congruence(s0, faded_seq, 1);
            lemma_chan_sum_congruence(s3, s2, 2);
            lemma_chan_sum_congruence(s0, faded_seq, 2);
            lemma_chan_sum_congruence(s1, s0, 2);
            lemma_chan_sum_congruence(s0, faded_seq, 3);
            lemma_chan_sum_congruence(s1, s0, 3);
            lemma_chan_sum_congruence(s2, s1, 3);
            assert(chan_sum(s3, 0) == chan_sum(faded_seq, 0) + b0);
            assert(chan_sum(s3, 1) == chan_sum(faded_seq, 1) + b1);
            assert(chan_sum(s3, 2) == chan_sum(faded_seq, 2) + b2);
            assert(chan_sum(s3, 3) == chan_sum(faded_seq, 3) + b3);
            assert(act as int == (old(self).avg_leds_activated as int) * old(self).energy@.len());
            assert(b0 == old(self).budget_spec(norm.r as int));
            assert(b1 == old(self).budget_spec(norm.g as int));
            assert(b2 == old(self).budget_spec(norm.b as int));
            assert(b3 == old(self).budget_spec(norm.w as int));
            assert(chan(cur, 0) == sigproc.band_of(0));
            assert(chan(cur, 1) == sigproc.band_of(1));
            assert(chan(cur, 2) == sigproc.band_of(2));
            assert(chan(cur, 3) == sigproc.band_of(3));
            assert(chan(norm, 0) == normalize_spec(
                chan(cur, 0) as int,
                chan(self.tracker.max_energy, 0) as int,
                old(self).tracker.exp_of(0),
            ));
            assert(chan(norm, 1) == normalize_spec(
                chan(cur, 1) as int,
                chan(self.tracker.max_energy, 1) as int,
                old(self).tracker.exp_of(1),
            ));
            assert(chan(norm, 2) == normalize_spec(
                chan(cur, 2) as int,
                chan(self.tracker.max_energy, 2) as int,
                old(self).tracker.exp_of(2),
            ));
            assert(chan(norm, 3) == normalize_spec(
                chan(cur, 3) as int,
                chan(self.tracker.max_energy, 3) as int,
                old(self).tracker.exp_of(3),
            ));
        }

        // render: copy the accumulator, subdue white, clamp
        let ghost acc_done = *self;
        let n = self.energy.len();
        let mut j: usize = 0;
        while j < n
            invariant
                j <= n,
                self.energy == acc_done.energy,
                self.tracker == acc_done.tracker,
                self.fade_factor == acc_done.fade_factor,
                self.avg_leds_activated == acc_done.avg_leds_activated,
                self.white_extra_scale == acc_done.white_extra_scale,
                self.condensation_factor == acc_done.condensation_factor,
                n == self.energy@.len(),
                n == self.colorlists@.len(),
                self.colorlists.strips() == acc_done.colorlists.strips(),
                self.colorlists.leds() == acc_done.colorlists.leds(),
                cells_le(self.energy@, ACC_LIMIT as int),
                self.white_extra_scale <= FP_ONE,
                forall|k: int| 0 <= k < j ==> #[trigger] self.colorlists@[k] == color_limited(
                    white_scaled(self.energy@[k], self.white_extra_scale as int),
                ),
            decreases n - j,
        {
            let mut cell = self.energy.get_flat(j);
            proof {
                lemma_mul_le(
                    cell.w as int,
                    self.white_extra_scale as int,
                    ACC_LIMIT as int,
                    FP_ONE as int,
                );
            }
            cell.w = fp_mul(cell.w, self.white_extra_scale);
            cell.limit();
            self.colorlists.set_flat(j, cell);
            j += 1;
        }
        proof {
            assert forall|k: int| 0 <= k < self.colorlists@.len() implies color_le(
                #[trigger] self.colorlists@[k],
                FP_ONE as int,
            ) by {
                assert(self.colorlists@[k] == color_limited(
                    white_scaled(self.energy@[k], self.white_extra_scale as int),
                ));
            }
        }
        Ok(())
    }

    pub fn get_colorlist(&self) -> (b: &ColorBuffer)
        ensures
            *b == self.colorlists,
    {
        &self.colorlists
    }
}

impl crate::animation::Animation for Particles {
    open spec fn well_formed(&self) -> bool {
        self.wf()
    }

    open spec fn strip_count(&self) -> int {
        self.colorlists.strips()
    }

    open spec fn led_count(&self) -> int {
        self.colorlists.leds()
    }

    open spec fn colors(&self) -> Seq<Color> {
        self.colorlists@
    }

    fn init(&mut self) -> (r: Result<(), AnimationError>) {
        Particles::init(self)
    }

    fn periodic(&mut self, sigproc: &SignalProcessing) -> (r: Result<(), AnimationError>) {
        Particles::periodic(self, sigproc)
    }

    fn get_colorlist(&self) -> (b: &ColorBuffer) {
        Particles::get_colorlist(self)
    }
}

} // verus!
