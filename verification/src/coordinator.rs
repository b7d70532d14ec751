//! The dual-rate real-time coordinator: one cadence for analysis block
//! ingest, an independent one for network emission, standby gating during
//! prolonged silence, and bounded-lag recovery for the emission clock.
//! All times are nanosecond timestamps supplied by the caller.

use vstd::prelude::*;

verus! {

/// Upper bound on timestamps and periods accepted by the coordinator, so
/// that deadline arithmetic never overflows.
pub const TIME_CAP: u64 = 0x4000_0000_0000_0000;

/// A timestamp clamped to the accepted range; deadlines saturate there,
/// about a century and a half from the epoch.
pub open spec fn sat_time(x: int) -> u64 {
    if x > TIME_CAP as int {
        TIME_CAP
    } else {
        x as u64
    }
}

/// The coordinator's decision state.
pub struct Coordinator {
    pub block_len: u64,
    pub silence_threshold: u64,
    pub block_period_ns: u64,
    pub send_period_ns: u64,
    pub max_lag_ns: u64,
    pub backoff_ns: u64,
    pub silent_samples: u64,
    pub next_block_ns: u64,
    pub next_send_ns: u64,
}

/// The state change of one ingested block: a silent block raises the
/// silence counter (saturating), any other block clears it.
pub open spec fn block_step(c: Coordinator, is_silent: bool) -> Coordinator {
    let counter: u64 = if is_silent {
        if c.silent_samples + c.block_len <= u64::MAX {
            (c.silent_samples + c.block_len) as u64
        } else {
            u64::MAX
        }
    } else {
        0
    };
    Coordinator { silent_samples: counter, ..c }
}

/// Whether the analysis and animation tick runs for this block: always
/// after sound, and during silence only until the counter reaches the
/// standby threshold.
pub open spec fn block_runs(c: Coordinator, is_silent: bool) -> bool {
    block_step(c, is_silent).silent_samples < c.silence_threshold
}

/// The coordinator after `k` consecutive silent blocks.
pub open spec fn after_silent(c: Coordinator, k: nat) -> Coordinator
    decreases k,
{
    if k == 0 {
        c
    } else {
        block_step(after_silent(c, (k - 1) as nat), true)
    }
}

/// Silence accumulates linearly while the configuration stays fixed.
pub proof fn lemma_silence_accumulates(c: Coordinator, k: nat)
    requires
        c.silent_samples + k * c.block_len <= u64::MAX,
    ensures
        after_silent(c, k).silent_samples == c.silent_samples + k * c.block_len,
        after_silent(c, k) == (Coordinator {
            silent_samples: after_silent(c, k).silent_samples,
            ..c
        }),
    decreases k,
{
    if k > 0 {
        assert((k - 1) as int * c.block_len + c.block_len == k as int * c.block_len)
            by (nonlinear_arith);
        assert(0 <= (k - 1) as int * c.block_len) by (nonlinear_arith)
            requires k >= 1;
        lemma_silence_accumulates(c, (k - 1) as nat);
    } else {
        assert(k * c.block_len == 0) by (nonlinear_arith)
            requires k == 0;
    }
}

/// Standby gating: once the accumulated silence reaches the threshold the
/// tick is suppressed for every further silent block, while the very next
/// non-silent block runs the tick again and clears the counter.
pub proof fn lemma_standby_gating(c: Coordinator, k: nat)
    requires
        c.silent_samples + (k + 1) * c.block_len <= u64::MAX,
        1 <= c.silence_threshold,
    ensures
        block_runs(after_silent(c, k), true) <==> c.silent_samples + (k + 1) * c.block_len
            < c.silence_threshold,
        block_runs(after_silent(c, k), false),
        block_step(after_silent(c, k), false).silent_samples == 0,
{
    assert(k * c.block_len + c.block_len == (k + 1) * c.block_len) by (nonlinear_arith);
    assert(0 <= k * c.block_len) by (nonlinear_arith);
    lemma_silence_accumulates(c, k);
}

impl Coordinator {
    pub open spec fn wf(&self) -> bool {
        &&& 1 <= self.block_len <= 0x10_0000
        &&& 1 <= self.silence_threshold <= TIME_CAP
        &&& 1 <= self.block_period_ns <= 0x1_0000_0000_0000
        &&& 1 <= self.send_period_ns <= 0x1_0000_0000_0000
        &&& self.max_lag_ns == 5 * self.send_period_ns
        &&& 1 <= self.backoff_ns <= 0x1_0000_0000_0000
        &&& self.next_block_ns <= TIME_CAP
        &&& self.next_send_ns <= TIME_CAP
    }

    pub fn new(
        block_len: u64,
        silence_threshold: u64,
        block_period_ns: u64,
        send_period_ns: u64,
        backoff_ns: u64,
        now_ns: u64,
    ) -> (c: Coordinator)
        requires
            1 <= block_len <= 0x10_0000,
            1 <= silence_threshold <= TIME_CAP,
            1 <= block_period_ns <= 0x1_0000_0000_0000,
            1 <= send_period_ns <= 0x1_0000_0000_0000,
            1 <= backoff_ns <= 0x1_0000_0000_0000,
            now_ns <= 0x2000_0000_0000_0000,
        ensures
            c.wf(),
            c.block_len == block_len,
            c.silence_threshold == silence_threshold,
            c.block_period_ns == block_period_ns,
            c.send_period_ns == send_period_ns,
            c.max_lag_ns == 5 * send_period_ns,
            c.backoff_ns == backoff_ns,
            c.silent_samples == 0,
            c.next_block_ns == now_ns + block_period_ns,
            c.next_send_ns == now_ns + send_period_ns,
    {
        Coordinator {
            block_len,
            silence_threshold,
            block_period_ns,
            send_period_ns,
            max_lag_ns: 5 * send_period_ns,
            backoff_ns,
            silent_samples: 0,
            next_block_ns: now_ns + block_period_ns,
            next_send_ns: now_ns + send_period_ns,
        }
    }

    /// Whether the coordinator is in standby: enough silence accumulated
    /// to suppress analysis and animation work.
    pub open spec fn standby(&self) -> bool {
        self.silent_samples >= self.silence_threshold
    }

    /// Executable standby query, for gating frame emission: while in
    /// standby no frame is handed to the wire encoder.
    pub fn in_standby(&self) -> (r: bool)
        ensures
            r == self.standby(),
    {
        self.silent_samples >= self.silence_threshold
    }

    /// Account one ingested block and decide whether this iteration runs
    /// the spectral update and animation tick.
    pub fn on_block(&mut self, is_silent: bool) -> (run: bool)
        requires
            old(self).wf(),
        ensures
            final(self).wf(),
            *final(self) == block_step(*old(self), is_silent),
            run == block_runs(*old(self), is_silent),
            !is_silent ==> final(self).silent_samples == 0 && run,
    {
        if is_silent {
            self.silent_samples = if self.silent_samples <= u64::MAX - self.block_len {
                self.silent_samples + self.block_len
            } else {
                u64::MAX
            };
        } else {
            self.silent_samples = 0;
        }
        self.silent_samples < self.silence_threshold
    }

    /// Whether the emission deadline has passed.
    pub fn emission_due(&self, now_ns: u64) -> (due: bool)
        ensures
            due == (now_ns > self.next_send_ns),
    {
        now_ns > self.next_send_ns
    }

    /// Move the emission deadline after a successful emission.  If the lag
    /// exceeds the bounded multiple of the period, resynchronize to one
    /// period from now instead of emitting a burst of catch-up frames.
    pub fn emission_done(&mut self, now_ns: u64)
        requires
            old(self).wf(),
            now_ns <= 0x2000_0000_0000_0000,
        ensures
            final(self).wf(),
            *final(self) == (Coordinator {
                next_send_ns: if now_ns > old(self).next_send_ns + old(self).max_lag_ns {
                    sat_time(now_ns + old(self).send_period_ns)
                } else {
                    sat_time(old(self).next_send_ns + old(self).send_period_ns)
                },
                ..*old(self)
            }),
    {
        let base = if now_ns > self.next_send_ns + self.max_lag_ns {
            now_ns
        } else {
            self.next_send_ns
        };
        self.next_send_ns = if base + self.send_period_ns > TIME_CAP {
            TIME_CAP
        } else {
            base + self.send_period_ns
        };
    }

    /// Defer the emission deadline by the fixed backoff after a transient
    /// network failure; the frame is dropped, not retried.
    pub fn emission_refused(&mut self)
        requires
            old(self).wf(),
        ensures
            final(self).wf(),
            *final(self) == (Coordinator {
                next_send_ns: sat_time(old(self).next_send_ns + old(self).backoff_ns),
                ..*old(self)
            }),
    {
        self.next_send_ns = if self.next_send_ns + self.backoff_ns > TIME_CAP {
            TIME_CAP
        } else {
            self.next_send_ns + self.backoff_ns
        };
    }

    /// Whether the block-ingest deadline has passed.
    pub fn block_due(&self, now_ns: u64) -> (due: bool)
        ensures
            due == (now_ns >= self.next_block_ns),
    {
        now_ns >= self.next_block_ns
    }

    /// Schedule the next block-ingest deadline one period from now.
    pub fn block_done(&mut self, now_ns: u64)
        requires
            old(self).wf(),
            now_ns <= 0x2000_0000_0000_0000,
        ensures
            final(self).wf(),
            *final(self) == (Coordinator {
                next_block_ns: sat_time(now_ns + old(self).block_period_ns),
                ..*old(self)
            }),
    {
        self.next_block_ns = if now_ns + self.block_period_ns > TIME_CAP {
            TIME_CAP
        } else {
            now_ns + self.block_period_ns
        };
    }
}

} // verus!
