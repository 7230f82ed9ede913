use vstd::prelude::*;

use crate::vsg::{
    prepare_sweep, prepare_sweep_plan, sample_rate_hz, steps_view, ScpiStep, VsgError,
    MAX_SAMPLE_RATE_HZ,
};

verus! {

/// How many times the armed sequence repeats the waveform on each trigger.
pub const SWEEP_REPEAT_COUNT: u32 = 1000;

/// Margin added to the playing time of one waveform pass before telemetry is read, in µs.
pub const GUARD_US: u64 = 100;

/// Sweep settings that are refused before anything is sent.
#[derive(Debug, PartialEq, Eq, Structural)]
pub enum SweepError {
    /// The step is zero or negative while the range is not empty.
    NonPositiveStep,
    /// A zero channel width gives no sample rate.
    ZeroBandwidth,
}

/// Number of power levels from `start` to `end` inclusive in steps of `step`.
pub open spec fn step_count(start: int, end: int, step: int) -> nat {
    if start > end || step <= 0 {
        0
    } else {
        ((end - start) / step + 1) as nat
    }
}

/// The playing time of a waveform of `wfm_len` bytes (4 per sample pair) at the sample
/// rate of a channel width, in µs and rounded down, plus `GUARD_US`.
pub open spec fn wait_time_us(wfm_len: nat, bw_mhz: nat) -> nat {
    ((wfm_len / 4) * 1_000_000 / (bw_mhz * 2_000_000) + GUARD_US) as nat
}

/// A carrier frequency in MHz, rounded to the nearest (halves up), at most `u32::MAX`.
pub open spec fn carrier_mhz_of(cf_hz: u64) -> u32 {
    let m = (cf_hz as nat + 500_000) / 1_000_000;
    if m > u32::MAX {
        u32::MAX
    } else {
        m as u32
    }
}

/// The levels that `step_count` counts are exactly the levels `start + k * step`, for
/// `k` from 0, that do not pass `end`.
pub proof fn lemma_levels_span_range(start: int, end: int, step: int, k: nat)
    requires
        step > 0,
    ensures
        k < step_count(start, end, step) <==> start + k * step <= end,
{
    if start <= end {
        let a = end - start;
        let q = a / step;
        assert(q * step <= a && a < q * step + step) by (nonlinear_arith)
            requires
                a >= 0,
                step > 0,
                q == a / step,
        ;
        assert(step_count(start, end, step) == q + 1);
        if k <= q {
            assert(k * step <= q * step) by (nonlinear_arith)
                requires
                    k <= q,
                    step > 0,
            ;
        } else {
            assert(k * step >= q * step + step) by (nonlinear_arith)
                requires
                    k >= q + 1,
                    step > 0,
            ;
        }
    } else {
        assert(k * step >= 0) by (nonlinear_arith)
            requires
                step > 0,
        ;
    }
}

/// One step of a sweep.
pub struct SweepStep {
    /// The level that this step stands for, in hundredths of a dBm.
    pub power_cdbm: i64,
    /// The power to command: the level plus the cable loss.
    pub output_cdbm: i64,
    /// 1-based position of the step.
    pub step_index: u64,
    pub total_steps: u64,
}

pub struct PowerSweepView {
    pub cf_hz: u64,
    pub bw_mhz: u32,
    pub cable_loss: int,
    pub start: int,
    pub end: int,
    pub step: int,
    /// Steps handed out so far.
    pub next: nat,
    /// Whether the sweep has ended, by running out or by cancellation.
    pub finished: bool,
    pub wait_us: nat,
}

/// The decisions of a power sweep: which levels, in which order, and when to stop. The
/// caller arms the generator with `prepare`, then asks `next_step` at each step boundary
/// whether to go on, and stops the generator once it answers `None`.
pub struct PowerSweep {
    cf_hz: u64,
    bw_mhz: u32,
    cable_loss: i64,
    start: i64,
    end: i64,
    step: i64,
    total: u64,
    next: u64,
    finished: bool,
    wait_us: u64,
}

impl View for PowerSweep {
    type V = PowerSweepView;

    closed spec fn view(&self) -> PowerSweepView {
        PowerSweepView {
            cf_hz: self.cf_hz,
            bw_mhz: self.bw_mhz,
            cable_loss: self.cable_loss as int,
            start: self.start as int,
            end: self.end as int,
            step: self.step as int,
            next: self.next as nat,
            finished: self.finished,
            wait_us: self.wait_us as nat,
        }
    }
}

impl PowerSweep {
    #[verifier::type_invariant]
    spec fn inv(self) -> bool {
        &&& i32::MIN <= self.start <= i32::MAX
        &&& i32::MIN <= self.end <= i32::MAX
        &&& i32::MIN <= self.cable_loss <= i32::MAX
        &&& self.start <= self.end ==> 1 <= self.step <= i32::MAX
        &&& self.total == step_count(self.start as int, self.end as int, self.step as int)
        &&& self.next <= self.total
    }

    /// Sets up a sweep of carrier `cf_hz` at channel width `bw_mhz`, from `start_cdbm` to
    /// `end_cdbm` inclusive by `step_cdb` (hundredths of a dB), with `cable_loss_cdb` added
    /// to every commanded power, for a waveform of `wfm_len` bytes.
    pub fn new(
        cf_hz: u64,
        bw_mhz: u32,
        cable_loss_cdb: i32,
        start_cdbm: i32,
        end_cdbm: i32,
        step_cdb: i32,
        wfm_len: usize,
    ) -> (r: Result<PowerSweep, SweepError>)
        ensures
            bw_mhz == 0 ==> r == Err::<PowerSweep, SweepError>(SweepError::ZeroBandwidth),
            bw_mhz != 0 && step_cdb <= 0 && start_cdbm <= end_cdbm ==> r == Err::<
                PowerSweep,
                SweepError,
            >(SweepError::NonPositiveStep),
            bw_mhz != 0 && (step_cdb > 0 || start_cdbm > end_cdbm) ==> (r matches Ok(s) && s@
                == (PowerSweepView {
                cf_hz,
                bw_mhz,
                cable_loss: cable_loss_cdb as int,
                start: start_cdbm as int,
                end: end_cdbm as int,
                step: step_cdb as int,
                next: 0,
                finished: false,
                wait_us: wait_time_us(wfm_len as nat, bw_mhz as nat),
            })),
    {
        if bw_mhz == 0 {
            return Err(SweepError::ZeroBandwidth);
        }
        if step_cdb <= 0 && start_cdbm <= end_cdbm {
            return Err(SweepError::NonPositiveStep);
        }
        let start = start_cdbm as i64;
        let end = end_cdbm as i64;
        let step = step_cdb as i64;
        let total: u64 = if start > end {
            0
        } else {
            assert((end - start) as int / step as int <= end - start) by (nonlinear_arith)
                requires
                    end - start >= 0,
                    step >= 1,
            ;
            ((end - start) / step + 1) as u64
        };
        let fs = sample_rate_hz(bw_mhz) as u128;
        let pairs = (wfm_len / 4) as u128;
        assert(pairs * 1_000_000 <= u128::MAX) by (nonlinear_arith)
            requires
                pairs <= u64::MAX,
        ;
        let passes = pairs * 1_000_000 / fs;
        assert(passes <= pairs) by (nonlinear_arith)
            requires
                passes == (pairs * 1_000_000) as int / fs as int,
                fs >= 2_000_000,
        ;
        let wait_us = passes as u64 + GUARD_US;
        Ok(PowerSweep {
            cf_hz,
            bw_mhz,
            cable_loss: cable_loss_cdb as i64,
            start,
            end,
            step,
            total,
            next: 0,
            finished: false,
            wait_us,
        })
    }

    /// Number of levels in the sweep.
    pub fn total_steps(&self) -> (r: u64)
        ensures
            r == step_count(self@.start, self@.end, self@.step),
    {
        proof {
            use_type_invariant(self);
        }
        self.total
    }

    /// How long to let each triggered burst play before telemetry is read, in µs.
    pub fn wait_us(&self) -> (r: u64)
        ensures
            r == self@.wait_us,
    {
        self.wait_us
    }

    /// The carrier in whole MHz, as the device under test takes it.
    pub fn carrier_mhz(&self) -> (r: u32)
        ensures
            r == carrier_mhz_of(self@.cf_hz),
    {
        let m = self.cf_hz / 1_000_000 + if self.cf_hz % 1_000_000 >= 500_000 {
            1
        } else {
            0
        };
        if m > u32::MAX as u64 {
            u32::MAX
        } else {
            m as u32
        }
    }

    pub fn bw_mhz(&self) -> (r: u32)
        ensures
            r == self@.bw_mhz,
    {
        self.bw_mhz
    }

    /// The exchanges that arm the generator once, at the first level plus the cable loss,
    /// with a sequence of `SWEEP_REPEAT_COUNT` passes of `data` on a bus trigger.
    pub fn prepare(&self, data: &[u8]) -> (r: Result<Vec<ScpiStep>, VsgError>)
        ensures
            self@.bw_mhz * 2_000_000 > MAX_SAMPLE_RATE_HZ ==> r == Err::<Vec<ScpiStep>, VsgError>(
                VsgError::SampleRateTooHigh((self@.bw_mhz * 2_000_000) as u64),
            ),
            self@.bw_mhz * 2_000_000 <= MAX_SAMPLE_RATE_HZ ==> (r matches Ok(s) && steps_view(
                s@,
            ) == prepare_sweep_plan(
                data@,
                "waveform"@,
                self@.cf_hz,
                (self@.bw_mhz * 2_000_000) as u64,
                (self@.start + self@.cable_loss) as i64,
                SWEEP_REPEAT_COUNT,
            )),
    {
        proof {
            use_type_invariant(self);
        }
        prepare_sweep(
            data,
            "waveform",
            self.cf_hz,
            sample_rate_hz(self.bw_mhz),
            self.start + self.cable_loss,
            SWEEP_REPEAT_COUNT,
        )
    }

    /// Decides, at a step boundary, whether the sweep goes on. It ends, for good, once every
    /// level has been handed out or when `cancelled` is set; otherwise it hands out the next
    /// level, in increasing order.
    pub fn next_step(&mut self, cancelled: bool) -> (r: Option<SweepStep>)
        ensures
            ({
                let o = old(self)@;
                let total = step_count(o.start, o.end, o.step);
                if o.finished || cancelled || o.next >= total {
                    r is None && final(self)@ == PowerSweepView { finished: true, ..o }
                } else {
                    &&& r matches Some(s) && s.power_cdbm == o.start + o.next * o.step
                        && s.output_cdbm == o.start + o.next * o.step + o.cable_loss
                        && s.step_index == o.next + 1 && s.total_steps == total
                    &&& final(self)@ == PowerSweepView { next: o.next + 1, ..o }
                }
            }),
    {
        proof {
            use_type_invariant(&*self);
        }
        if self.finished || cancelled || self.next >= self.total {
            self.finished = true;
            return None;
        }
        let k = self.next;
        proof {
            lemma_levels_span_range(self.start as int, self.end as int, self.step as int, k as nat);
            assert(k * self.step >= 0) by (nonlinear_arith)
                requires
                    self.step >= 1,
            ;
        }
        let level = self.start + (k as i64) * self.step;
        let step = SweepStep {
            power_cdbm: level,
            output_cdbm: level + self.cable_loss,
            step_index: k + 1,
            total_steps: self.total,
        };
        self.next = k + 1;
        Some(step)
    }
}

} // verus!
