//! Shared infrastructure for the generative light animations: the error
//! type, four-channel color samples and the strip-by-index color grid.
//!
//! A color channel is a 16.16 fixed-point value; a rendered sample is kept
//! in `[0, FP_ONE]` by a final clamp pass, while intermediate accumulation
//! may exceed that range.

use vstd::prelude::*;
use crate::fixed::{FP_ONE, fp_mul_spec, fp_mul};
use crate::signal_processing::SignalProcessing;

verus! {

#[derive(Debug, PartialEq)]
pub enum AnimationError {
    ErrorMessage(String),
}

/// Upper bound on the number of LEDs in one grid; keeps index arithmetic
/// comfortably inside `usize` and `u64`.
pub const MAX_LEDS_TOTAL: u64 = 0x10_0000;

/// Upper bound on a single channel during intermediate accumulation; any
/// value this large can still be rescaled by a fixed-point factor in `u64`.
pub const CELL_CAP: u64 = 0xFFFF_FFFF_FFFF;

/// Saturating 64-bit value of an unbounded sum.
pub open spec fn sat64(x: int) -> u64 {
    if x > u64::MAX as int {
        u64::MAX
    } else {
        x as u64
    }
}

/// One four-channel (R, G, B, W) fixed-point color sample.
#[derive(Clone, Copy, PartialEq, Eq, Structural, Debug)]
pub struct Color {
    pub r: u64,
    pub g: u64,
    pub b: u64,
    pub w: u64,
}

/// Channel `i` of `c`, in the canonical order R, G, B, W.
pub open spec fn chan(c: Color, i: int) -> u64 {
    if i == 0 {
        c.r
    } else if i == 1 {
        c.g
    } else if i == 2 {
        c.b
    } else {
        c.w
    }
}

/// All four channels of `c` are at most `m`.
pub open spec fn color_le(c: Color, m: int) -> bool {
    c.r <= m && c.g <= m && c.b <= m && c.w <= m
}

/// Every cell of `s` has all channels at most `m`.
pub open spec fn cells_le(s: Seq<Color>, m: int) -> bool {
    forall|i: int| 0 <= i < s.len() ==> color_le(#[trigger] s[i], m)
}

/// Every cell of `s` is a valid rendered sample, that is in `[0, 1]`.
pub open spec fn all_limited(s: Seq<Color>) -> bool {
    cells_le(s, FP_ONE as int)
}

/// `a` and `b` agree on every channel other than `c`.
pub open spec fn same_except(a: Color, b: Color, c: int) -> bool {
    &&& (c != 0 ==> a.r == b.r)
    &&& (c != 1 ==> a.g == b.g)
    &&& (c != 2 ==> a.b == b.b)
    &&& (c != 3 ==> a.w == b.w)
}

/// `c` scaled by the fixed-point factor `f` in every channel.
pub open spec fn color_scaled(c: Color, f: int) -> Color {
    Color {
        r: fp_mul_spec(c.r as int, f) as u64,
        g: fp_mul_spec(c.g as int, f) as u64,
        b: fp_mul_spec(c.b as int, f) as u64,
        w: fp_mul_spec(c.w as int, f) as u64,
    }
}

/// Channel-wise saturating sum of `a` and `b`.
pub open spec fn color_add_sat(a: Color, b: Color) -> Color {
    Color {
        r: sat64(a.r + b.r),
        g: sat64(a.g + b.g),
        b: sat64(a.b + b.b),
        w: sat64(a.w + b.w),
    }
}

/// `c` with every channel clamped to at most `FP_ONE`.
pub open spec fn color_limited(c: Color) -> Color {
    Color {
        r: if c.r > FP_ONE { FP_ONE } else { c.r },
        g: if c.g > FP_ONE { FP_ONE } else { c.g },
        b: if c.b > FP_ONE { FP_ONE } else { c.b },
        w: if c.w > FP_ONE { FP_ONE } else { c.w },
    }
}

impl Color {
    pub fn black() -> (c: Color)
        ensures
            c == (Color { r: 0u64, g: 0u64, b: 0u64, w: 0u64 }),
    {
        Color { r: 0, g: 0, b: 0, w: 0 }
    }

    /// Multiply every channel by the fixed-point factor.
    pub fn scale(&mut self, factor: u64)
        requires
            (old(self).r as int) * (factor as int) <= u64::MAX as int,
            (old(self).g as int) * (factor as int) <= u64::MAX as int,
            (old(self).b as int) * (factor as int) <= u64::MAX as int,
            (old(self).w as int) * (factor as int) <= u64::MAX as int,
        ensures
            *final(self) == color_scaled(*old(self), factor as int),
    {
        self.r = fp_mul(self.r, factor);
        self.g = fp_mul(self.g, factor);
        self.b = fp_mul(self.b, factor);
        self.w = fp_mul(self.w, factor);
    }

    /// A copy of `self` with every channel multiplied by `factor`.
    pub fn scaled_copy(&self, factor: u64) -> (c: Color)
        requires
            (self.r as int) * (factor as int) <= u64::MAX as int,
            (self.g as int) * (factor as int) <= u64::MAX as int,
            (self.b as int) * (factor as int) <= u64::MAX as int,
            (self.w as int) * (factor as int) <= u64::MAX as int,
        ensures
            c == color_scaled(*self, factor as int),
    {
        let mut c = *self;
        c.scale(factor);
        c
    }

    /// Channel-wise saturating addition of `other` onto `self`.
    pub fn add(&mut self, other: &Color)
        ensures
            *final(self) == color_add_sat(*old(self), *other),
    {
        self.r = if self.r > u64::MAX - other.r {
            u64::MAX
        } else {
            self.r + other.r
        };
        self.g = if self.g > u64::MAX - other.g {
            u64::MAX
        } else {
            self.g + other.g
        };
        self.b = if self.b > u64::MAX - other.b {
            u64::MAX
        } else {
            self.b + other.b
        };
        self.w = if self.w > u64::MAX - other.w {
            u64::MAX
        } else {
            self.w + other.w
        };
    }

    /// Clamp every channel into the valid rendered range `[0, 1]`.
    /// Channels are unsigned, so only the upper bound needs enforcing.
    pub fn limit(&mut self)
        ensures
            *final(self) == color_limited(*old(self)),
    {
        if self.r > FP_ONE {
            self.r = FP_ONE;
        }
        if self.g > FP_ONE {
            self.g = FP_ONE;
        }
        if self.b > FP_ONE {
            self.b = FP_ONE;
        }
        if self.w > FP_ONE {
            self.w = FP_ONE;
        }
    }

    /// Read channel `i` in the canonical R, G, B, W order.
    pub fn channel(&self, i: usize) -> (v: u64)
        requires
            i < 4,
        ensures
            v == chan(*self, i as int),
    {
        if i == 0 {
            self.r
        } else if i == 1 {
            self.g
        } else if i == 2 {
            self.b
        } else {
            self.w
        }
    }

    /// Write channel `i` in the canonical R, G, B, W order.
    pub fn set_channel(&mut self, i: usize, v: u64)
        requires
            i < 4,
        ensures
            chan(*final(self), i as int) == v,
            same_except(*final(self), *old(self), i as int),
    {
        if i == 0 {
            self.r = v;
        } else if i == 1 {
            self.g = v;
        } else if i == 2 {
            self.b = v;
        } else {
            self.w = v;
        }
    }
}

/// Sum of channel `c` over all cells of `s`.
pub open spec fn chan_sum(s: Seq<Color>, c: int) -> int
    decreases s.len(),
{
    if s.len() == 0 {
        0
    } else {
        chan_sum(s.drop_last(), c) + chan(s.last(), c)
    }
}

/// Updating one cell moves the channel sum by the difference at that cell.
pub proof fn lemma_chan_sum_update(s: Seq<Color>, c: int, i: int, v: Color)
    requires
        0 <= i < s.len(),
    ensures
        chan_sum(s.update(i, v), c) == chan_sum(s, c) - chan(s[i], c) + chan(v, c),
    decreases s.len(),
{
    if i == s.len() - 1 {
        assert(s.update(i, v).drop_last() =~= s.drop_last());
        assert(s.update(i, v).last() == v);
    } else {
        assert(s.update(i, v).drop_last() =~= s.drop_last().update(i, v));
        assert(s.update(i, v).last() == s.last());
        lemma_chan_sum_update(s.drop_last(), c, i, v);
    }
}

/// Two grids that agree on channel `c` in every cell have the same sum
/// over that channel.
pub proof fn lemma_chan_sum_congruence(s1: Seq<Color>, s2: Seq<Color>, c: int)
    requires
        s1.len() == s2.len(),
        forall|i: int| 0 <= i < s1.len() ==> chan(#[trigger] s1[i], c) == chan(s2[i], c),
    ensures
        chan_sum(s1, c) == chan_sum(s2, c),
    decreases s1.len(),
{
    if s1.len() > 0 {
        lemma_chan_sum_congruence(s1.drop_last(), s2.drop_last(), c);
    }
}

/// A fixed-size strip-by-index grid of color samples, stored row major:
/// cell `(strip, led)` lives at flat index `strip * leds_per_strip + led`.
pub struct ColorBuffer {
    pub num_strips: usize,
    pub leds_per_strip: usize,
    pub cells: Vec<Color>,
}

impl View for ColorBuffer {
    type V = Seq<Color>;

    open spec fn view(&self) -> Seq<Color> {
        self.cells@
    }
}

impl ColorBuffer {
    pub open spec fn strips(&self) -> int {
        self.num_strips as int
    }

    pub open spec fn leds(&self) -> int {
        self.leds_per_strip as int
    }

    pub open spec fn total(&self) -> int {
        self.strips() * self.leds()
    }

    pub open spec fn wf(&self) -> bool {
        &&& 1 <= self.strips()
    &&& 1 <= self.leds()
        &&& self.total() <= MAX_LEDS_TOTAL as int
        &&& self@.len() == self.total()
    }

    /// Flat index of cell `(strip, led)`.
    pub open spec fn flat(&self, strip: int, led: int) -> int {
        strip * self.leds() + led
    }

    pub proof fn lemma_flat_in_range(&self, strip: int, led: int) by (nonlinear_arith)
        requires
            self.wf(),
            0 <= strip < self.strips(),
            0 <= led < self.leds(),
        ensures
            0 <= self.flat(strip, led) < self@.len(),
    {
    }

    pub fn new(num_strips: usize, leds_per_strip: usize) -> (b: ColorBuffer)
        requires
            1 <= num_strips,
            1 <= leds_per_strip,
            num_strips * leds_per_strip <= MAX_LEDS_TOTAL as int,
        ensures
            b.wf(),
            b.strips() == num_strips,
            b.leds() == leds_per_strip,
            forall|i: int| 0 <= i < b@.len() ==> #[trigger] b@[i] == (Color { r: 0u64, g: 0u64, b: 0u64, w: 0u64 }),
    {
        proof {
            assert(num_strips * leds_per_strip >= 1) by (nonlinear_arith)
                requires num_strips >= 1 && leds_per_strip >= 1;
        }
        let total: usize = num_strips * leds_per_strip;
        let mut cells: Vec<Color> = Vec::new();
        let mut i: usize = 0;
        while i < total
            invariant
                i <= total,
                cells@.len() == i,
                forall|j: int| 0 <= j < i ==> #[trigger] cells@[j] == (Color { r: 0u64, g: 0u64, b: 0u64, w: 0u64 }),
            decreases total - i,
        {
            cells.push(Color { r: 0, g: 0, b: 0, w: 0 });
            i += 1;
        }
        ColorBuffer { num_strips, leds_per_strip, cells }
    }

    pub fn num_strips(&self) -> (n: usize)
        ensures
            n == self.strips(),
    {
        self.num_strips
    }

    pub fn leds_per_strip(&self) -> (n: usize)
        ensures
            n == self.leds(),
    {
        self.leds_per_strip
    }

    /// The number of LEDs in the whole grid.
    pub fn len(&self) -> (n: usize)
        requires
            self.wf(),
        ensures
            n == self.total(),
            n == self@.len(),
    {
        proof {
            assert(self.num_strips * self.leds_per_strip == self.total()) by (nonlinear_arith);
        }
        self.num_strips * self.leds_per_strip
    }

    /// Read a cell by flat index in canonical board order.
    pub fn get_flat(&self, i: usize) -> (c: Color)
        requires
            i < self@.len(),
        ensures
            c == self@[i as int],
    {
        self.cells[i]
    }

    /// Overwrite a cell by flat index.
    pub fn set_flat(&mut self, i: usize, c: Color)
        requires
            i < old(self)@.len(),
        ensures
            final(self)@ == old(self)@.update(i as int, c),
            final(self).strips() == old(self).strips(),
            final(self).leds() == old(self).leds(),
    {
        self.cells[i] = c;
    }

    /// Saturating additive blend of `c` onto the cell at flat index `i`.
    pub fn add_flat(&mut self, i: usize, c: &Color)
        requires
            i < old(self)@.len(),
        ensures
            final(self)@ == old(self)@.update(i as int, color_add_sat(old(self)@[i as int], *c)),
            final(self).strips() == old(self).strips(),
            final(self).leds() == old(self).leds(),
    {
        let mut cell = self.cells[i];
        cell.add(c);
        self.cells[i] = cell;
    }

    /// Multiply every cell by the fixed-point factor `factor`.
    pub fn scale_all(&mut self, factor: u64)
        requires
            factor <= FP_ONE,
            cells_le(old(self)@, CELL_CAP as int),
        ensures
            final(self)@.len() == old(self)@.len(),
            forall|i: int| 0 <= i < old(self)@.len()
                ==> #[trigger] final(self)@[i] == color_scaled(old(self)@[i], factor as int),
            final(self).strips() == old(self).strips(),
            final(self).leds() == old(self).leds(),
    {
        let n = self.cells.len();
        let mut i: usize = 0;
        while i < n
            invariant
                n == self.cells@.len(),
                n == old(self)@.len(),
                i <= n,
                factor <= FP_ONE,
                cells_le(old(self)@, CELL_CAP as int),
                self.num_strips == old(self).num_strips,
                self.leds_per_strip == old(self).leds_per_strip,
                forall|j: int| 0 <= j < i
                    ==> #[trigger] self.cells@[j] == color_scaled(old(self)@[j], factor as int),
                forall|j: int| i <= j < n ==> #[trigger] self.cells@[j] == old(self)@[j],
            decreases n - i,
        {
            proof {
                let c = old(self)@[i as int];
                assert(color_le(c, CELL_CAP as int));
                crate::fixed::lemma_mul_le(c.r as int, factor as int, CELL_CAP as int, FP_ONE as int);
                crate::fixed::lemma_mul_le(c.g as int, factor as int, CELL_CAP as int, FP_ONE as int);
                crate::fixed::lemma_mul_le(c.b as int, factor as int, CELL_CAP as int, FP_ONE as int);
                crate::fixed::lemma_mul_le(c.w as int, factor as int, CELL_CAP as int, FP_ONE as int);
            }
            let mut cell = self.cells[i];
            cell.scale(factor);
            self.cells[i] = cell;
            i += 1;
        }
    }

    /// Reset every cell to black.
    pub fn clear(&mut self)
        ensures
            final(self)@.len() == old(self)@.len(),
            forall|i: int| 0 <= i < final(self)@.len()
                ==> #[trigger] final(self)@[i] == (Color { r: 0u64, g: 0u64, b: 0u64, w: 0u64 }),
            final(self).strips() == old(self).strips(),
            final(self).leds() == old(self).leds(),
    {
        let n = self.cells.len();
        let mut i: usize = 0;
        while i < n
            invariant
                n == self.cells@.len(),
                i <= n,
                self.num_strips == old(self).num_strips,
                self.leds_per_strip == old(self).leds_per_strip,
                forall|j: int| 0 <= j < i
                    ==> #[trigger] self.cells@[j] == (Color { r: 0u64, g: 0u64, b: 0u64, w: 0u64 }),
            decreases n - i,
        {
            self.cells[i] = Color { r: 0, g: 0, b: 0, w: 0 };
            i += 1;
        }
    }

    /// Final clamp pass: every channel of every cell into `[0, 1]`.
    pub fn limit_all(&mut self)
        ensures
            final(self)@.len() == old(self)@.len(),
            forall|i: int| 0 <= i < old(self)@.len()
                ==> #[trigger] final(self)@[i] == color_limited(old(self)@[i]),
            all_limited(final(self)@),
            final(self).strips() == old(self).strips(),
            final(self).leds() == old(self).leds(),
    {
        let n = self.cells.len();
        let mut i: usize = 0;
        while i < n
            invariant
                n == self.cells@.len(),
                n == old(self)@.len(),
                i <= n,
                self.num_strips == old(self).num_strips,
                self.leds_per_strip == old(self).leds_per_strip,
                forall|j: int| 0 <= j < i
                    ==> #[trigger] self.cells@[j] == color_limited(old(self)@[j]),
                forall|j: int| i <= j < n ==> #[trigger] self.cells@[j] == old(self)@[j],
            decreases n - i,
        {
            let mut cell = self.cells[i];
            cell.limit();
            self.cells[i] = cell;
            i += 1;
        }
        proof {
            assert forall|i: int| 0 <= i < self@.len()
                implies color_le(#[trigger] self@[i], FP_ONE as int) by {
                assert(self@[i] == color_limited(old(self)@[i]));
            }
        }
    }
}

/// The common contract of the generative animations: initialize once,
/// tick once per ingested analysis block, and expose a clamped color grid
/// snapshot of fixed dimensions for emission.
pub trait Animation {
    spec fn well_formed(&self) -> bool;

    spec fn strip_count(&self) -> int;

    spec fn led_count(&self) -> int;

    spec fn colors(&self) -> Seq<Color>;

    fn init(&mut self) -> (r: Result<(), AnimationError>)
        requires
            old(self).well_formed(),
        ensures
            final(self).well_formed(),
            final(self).strip_count() == old(self).strip_count(),
            final(self).led_count() == old(self).led_count(),
            r.is_ok(),
    ;

    fn periodic(&mut self, sigproc: &SignalProcessing) -> (r: Result<(), AnimationError>)
        requires
            old(self).well_formed(),
            sigproc.wf(),
            sigproc.samp_rate >= 2 * crate::signal_processing::FREQ_AIR_HI,
        ensures
            final(self).well_formed(),
            final(self).strip_count() == old(self).strip_count(),
            final(self).led_count() == old(self).led_count(),
            all_limited(final(self).colors()),
            r.is_ok(),
    ;

    fn get_colorlist(&self) -> (b: &ColorBuffer)
        requires
            self.well_formed(),
        ensures
            b@ == self.colors(),
            b.strips() == self.strip_count(),
            b.leds() == self.led_count(),
    ;
}

} // verus!
