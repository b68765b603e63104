use vstd::prelude::*;

use crate::error::LabError;
use crate::scalar::SCALAR_ABS_MAX;
use crate::scalar::Scalar;

verus! {

/// Largest current magnitude, in micro-amperes, that the controller will
/// ever ask a driver to set; a refinement step that would leave this band
/// aborts the run instead.
pub const CURR_ABS_GUARD: i64 = 2_000_000_000_000;

/// The fixed inputs of one sweep run: the resolution (which is also the
/// first set-point), the hard safety ceiling, the target relative voltage
/// drop in parts per million, and the settle delays the driver must wait
/// after each kind of set-point change.
#[derive(Clone, Copy, Debug, PartialEq, Eq, Structural)]
pub struct SweepConfig {
    /// Minimum step and final resolution, in micro-amperes; also the
    /// current at which the unloaded voltage is sampled.
    pub curr_start: i64,
    /// Hard safety ceiling, in micro-amperes.
    pub curr_limit: i64,
    /// Target relative voltage drop, in parts per million.
    pub drop_ppm: i64,
    /// Settle delay before the very first measurement, in seconds.
    pub settle_initial_s: u64,
    /// Settle delay after each coarse-ramp set-point, in seconds.
    pub settle_ramp_s: u64,
    /// Settle delay after each refinement set-point, in seconds.
    pub settle_search_s: u64,
}

impl SweepConfig {
    pub open spec fn wf(&self) -> bool {
        &&& 1 <= self.curr_start
        &&& self.curr_start <= self.curr_limit
        &&& self.curr_limit <= SCALAR_ABS_MAX
        &&& 0 < self.drop_ppm <= 1_000_000
    }

    /// Whether the configuration is usable: a positive resolution no
    /// larger than the ceiling, the ceiling within the scalar range, and
    /// a drop target between zero exclusive and one inclusive.
    pub fn check(&self) -> (r: bool)
        ensures
            r == self.wf(),
    {
        1 <= self.curr_start && self.curr_start <= self.curr_limit && self.curr_limit
            <= SCALAR_ABS_MAX && 0 < self.drop_ppm && self.drop_ppm <= 1_000_000
    }
}

/// Where the controller stands between two measurements.
#[derive(Clone, Copy, Debug, PartialEq, Eq, Structural)]
pub enum SweepPhase {
    /// The start current is set; the unloaded voltage has not been
    /// sampled yet.
    Init,
    /// Coarse geometric ramp: the current is set to `curr`, the next move
    /// would add `step`, and the crossing threshold is `thres`.
    Ramp { thres: i64, curr: i64, step: i64 },
    /// A refinement sub-search is about to start: the current has been
    /// set back to `curr` and its voltage is being sampled.
    SearchSettle { thres: i64, curr: i64, step: i64 },
    /// A refinement sub-search is running: the current is at `curr`,
    /// moving by `sign * step` each event, with `taken` moves made.
    Search { thres: i64, curr: i64, step: i64, sign: i64, taken: u64 },
    /// The crossing has been located at `curr`.
    Done { curr: i64 },
    /// The run has been abandoned.
    Aborted,
}

/// What the driver must do next.  After `SetCurrent` the driver sets the
/// current, waits the settle delay, measures the voltage and feeds it back
/// through `on_voltage`.  After `Shutdown` the driver must disable the
/// load input and sensing, best effort, and report the error.  `Finished`
/// carries the located crossing current.
#[derive(Clone, Copy, Debug, PartialEq, Eq, Structural)]
pub enum SweepAction {
    SetCurrent { micro_amps: i64, settle_s: u64 },
    Shutdown { error: LabError },
    Finished { curr: i64 },
}

pub open spec fn signum(x: int) -> int {
    if x > 0 {
        1
    } else if x < 0 {
        -1
    } else {
        0
    }
}

/// The crossing threshold: the initial voltage scaled down by the drop
/// target, rounded toward zero.
pub open spec fn threshold_spec(v_init: int, drop_ppm: int) -> int {
    (v_init * (1_000_000 - drop_ppm)) / 1_000_000
}

/// First transition: the unloaded voltage fixes the threshold, then the
/// ramp begins at twice the start current with a half-again larger step,
/// unless that would already exceed the ceiling.  A negative initial
/// voltage is outside the domain the sweep is defined on.
pub open spec fn init_step(cfg: SweepConfig, v: int) -> (SweepPhase, SweepAction) {
    if v < 0 {
        (SweepPhase::Aborted, SweepAction::Shutdown { error: LabError::DomainLimit })
    } else {
        let thres = threshold_spec(v, cfg.drop_ppm as int);
        let curr = 2 * cfg.curr_start as int;
        let step = cfg.curr_start as int + cfg.curr_start as int / 2;
        if curr > cfg.curr_limit as int {
            (SweepPhase::Aborted, SweepAction::Shutdown { error: LabError::DomainLimit })
        } else {
            (
                SweepPhase::Ramp { thres: thres as i64, curr: curr as i64, step: step as i64 },
                SweepAction::SetCurrent { micro_amps: curr as i64, settle_s: cfg.settle_ramp_s },
            )
        }
    }
}

/// Entry into the refinement phase at current `curr` with step `step`:
/// once the step is within the resolution the crossing is reported,
/// otherwise a sub-search starts by re-settling at `curr`.
pub open spec fn enter_refine(cfg: SweepConfig, thres: int, curr: int, step: int) -> (
    SweepPhase,
    SweepAction,
) {
    if step <= cfg.curr_start as int {
        (SweepPhase::Done { curr: curr as i64 }, SweepAction::Finished { curr: curr as i64 })
    } else {
        (
            SweepPhase::SearchSettle { thres: thres as i64, curr: curr as i64, step: step as i64 },
            SweepAction::SetCurrent { micro_amps: curr as i64, settle_s: cfg.settle_ramp_s },
        )
    }
}

/// Coarse-ramp transition: a voltage below the threshold ends the ramp
/// and enters refinement; otherwise the current grows by the step and the
/// step by half of itself, aborting if the ceiling would be exceeded.
pub open spec fn ramp_step(cfg: SweepConfig, thres: int, curr: int, step: int, v: int) -> (
    SweepPhase,
    SweepAction,
) {
    if v < thres {
        enter_refine(cfg, thres, curr, step)
    } else if curr + step > cfg.curr_limit as int {
        (SweepPhase::Aborted, SweepAction::Shutdown { error: LabError::DomainLimit })
    } else {
        (
            SweepPhase::Ramp {
                thres: thres as i64,
                curr: (curr + step) as i64,
                step: (step + step / 2) as i64,
            },
            SweepAction::SetCurrent { micro_amps: (curr + step) as i64, settle_s: cfg.settle_ramp_s },
        )
    }
}

/// Start-of-sub-search transition: the sampled voltage fixes which side
/// of the threshold the search starts on, and the first move is taken.
pub open spec fn settle_step(cfg: SweepConfig, thres: int, curr: int, step: int, v: int) -> (
    SweepPhase,
    SweepAction,
) {
    let sign = signum(v - thres);
    let next = curr + sign * step;
    if next > CURR_ABS_GUARD as int || next < -(CURR_ABS_GUARD as int) {
        (SweepPhase::Aborted, SweepAction::Shutdown { error: LabError::DomainLimit })
    } else {
        (
            SweepPhase::Search {
                thres: thres as i64,
                curr: next as i64,
                step: step as i64,
                sign: sign as i64,
                taken: 1,
            },
            SweepAction::SetCurrent { micro_amps: next as i64, settle_s: cfg.settle_search_s },
        )
    }
}

/// Sub-search transition: the search ends when the measured voltage sits
/// on the other side of the threshold than the start did; a sub-search
/// that ended within its first step halves the step for the next round.
/// Until then the current keeps moving by the signed step.
pub open spec fn search_step(
    cfg: SweepConfig,
    thres: int,
    curr: int,
    step: int,
    sign: int,
    taken: u64,
    v: int,
) -> (SweepPhase, SweepAction) {
    if signum(v - thres) != sign {
        let new_step = if taken < 2 {
            step / 2
        } else {
            step
        };
        enter_refine(cfg, thres, curr, new_step)
    } else {
        let next = curr + sign * step;
        if next > CURR_ABS_GUARD as int || next < -(CURR_ABS_GUARD as int) {
            (SweepPhase::Aborted, SweepAction::Shutdown { error: LabError::DomainLimit })
        } else {
            let new_taken: u64 = if taken == u64::MAX {
                taken
            } else {
                (taken + 1) as u64
            };
            (
                SweepPhase::Search {
                    thres: thres as i64,
                    curr: next as i64,
                    step: step as i64,
                    sign: sign as i64,
                    taken: new_taken,
                },
                SweepAction::SetCurrent { micro_amps: next as i64, settle_s: cfg.settle_search_s },
            )
        }
    }
}

/// The full transition relation: what one measurement does in each phase.
pub open spec fn step_spec(cfg: SweepConfig, phase: SweepPhase, v: int) -> (
    SweepPhase,
    SweepAction,
) {
    match phase {
        SweepPhase::Init => init_step(cfg, v),
        SweepPhase::Ramp { thres, curr, step } => ramp_step(
            cfg,
            thres as int,
            curr as int,
            step as int,
            v,
        ),
        SweepPhase::SearchSettle { thres, curr, step } => settle_step(
            cfg,
            thres as int,
            curr as int,
            step as int,
            v,
        ),
        SweepPhase::Search { thres, curr, step, sign, taken } => search_step(
            cfg,
            thres as int,
            curr as int,
            step as int,
            sign as int,
            taken,
            v,
        ),
        _ => (phase, SweepAction::Shutdown { error: LabError::DomainLimit }),
    }
}

pub open spec fn phase_wf(cfg: SweepConfig, phase: SweepPhase) -> bool {
    match phase {
        SweepPhase::Init => true,
        SweepPhase::Ramp { thres, curr, step } => {
            &&& 0 <= thres <= SCALAR_ABS_MAX
            &&& cfg.curr_start < curr <= cfg.curr_limit
            &&& cfg.curr_start <= step <= curr
        },
        SweepPhase::SearchSettle { thres, curr, step } => {
            &&& 0 <= thres <= SCALAR_ABS_MAX
            &&& cfg.curr_start < step <= cfg.curr_limit
            &&& -CURR_ABS_GUARD <= curr <= CURR_ABS_GUARD
        },
        SweepPhase::Search { thres, curr, step, sign, taken } => {
            &&& 0 <= thres <= SCALAR_ABS_MAX
            &&& cfg.curr_start < step <= cfg.curr_limit
            &&& -CURR_ABS_GUARD <= curr <= CURR_ABS_GUARD
            &&& (sign == -1 || sign == 0 || sign == 1)
            &&& taken >= 1
        },
        SweepPhase::Done { curr } => true,
        SweepPhase::Aborted => true,
    }
}

/// The sweep controller between two events.  The driver owns the real
/// instrument: it performs each returned action and feeds the resulting
/// measurement, or failure, back in.
#[derive(Clone, Copy, Debug, PartialEq, Eq, Structural)]
pub struct Sweep {
    pub cfg: SweepConfig,
    pub phase: SweepPhase,
}

impl Sweep {
    pub open spec fn wf(&self) -> bool {
        self.cfg.wf() && phase_wf(self.cfg, self.phase)
    }

    /// Whether the run is still waiting for a measurement.
    pub open spec fn live_spec(&self) -> bool {
        !(self.phase is Done) && !(self.phase is Aborted)
    }

    pub fn live(&self) -> (r: bool)
        ensures
            r == self.live_spec(),
    {
        match self.phase {
            SweepPhase::Done { .. } => false,
            SweepPhase::Aborted => false,
            _ => true,
        }
    }

    /// Starts a run: the first action sets the start current so the
    /// unloaded voltage can be sampled after the initial settle delay.
    /// An unusable configuration is rejected before anything is sent.
    pub fn new(cfg: SweepConfig) -> (r: Result<(Sweep, SweepAction), LabError>)
        ensures
            cfg.wf() ==> r == Ok::<(Sweep, SweepAction), LabError>(
                (
                    Sweep { cfg, phase: SweepPhase::Init },
                    SweepAction::SetCurrent {
                        micro_amps: cfg.curr_start,
                        settle_s: cfg.settle_initial_s,
                    },
                ),
            ),
            !cfg.wf() ==> r == Err::<(Sweep, SweepAction), LabError>(LabError::DomainLimit),
            r is Ok ==> r.unwrap().0.wf(),
    {
        if !cfg.check() {
            return Err(LabError::DomainLimit);
        }
        Ok(
            (
                Sweep { cfg, phase: SweepPhase::Init },
                SweepAction::SetCurrent {
                    micro_amps: cfg.curr_start,
                    settle_s: cfg.settle_initial_s,
                },
            ),
        )
    }

    /// Feeds one voltage measurement in and returns the next action,
    /// exactly as the transition relation [`step_spec`] describes.
    pub fn on_voltage(&mut self, v: Scalar) -> (a: SweepAction)
        requires
            old(self).wf(),
            old(self).live_spec(),
            v.wf(),
        ensures
            final(self).cfg == old(self).cfg,
            final(self).wf(),
            (final(self).phase, a) == step_spec(old(self).cfg, old(self).phase, v@),
    {
        let cfg = self.cfg;
        match self.phase {
            SweepPhase::Init => {
                if v.micro < 0 {
                    self.phase = SweepPhase::Aborted;
                    return SweepAction::Shutdown { error: LabError::DomainLimit };
                }
                let scale: u64 = (1_000_000 - cfg.drop_ppm) as u64;
                proof {
                    assert(v.micro as u64 * scale <= 1_000_000_000_000u64 * 1_000_000u64)
                        by (nonlinear_arith)
                        requires
                            v.micro as u64 <= 1_000_000_000_000u64,
                            scale <= 1_000_000u64,
                    ;
                }
                let thres = ((v.micro as u64 * scale) / 1_000_000) as i64;
                proof {
                    assert(thres as int == threshold_spec(v@, cfg.drop_ppm as int));
                    assert(thres as int * 1_000_000 <= v.micro as u64 as int * scale as int)
                        by (nonlinear_arith)
                        requires
                            thres as int == (v.micro as u64 as int * scale as int) / 1_000_000,
                            v.micro as u64 as int * scale as int >= 0,
                    ;
                    assert(v.micro as u64 as int * scale as int <= v@ * 1_000_000)
                        by (nonlinear_arith)
                        requires
                            scale as int <= 1_000_000,
                            v.micro as u64 as int == v@,
                            v@ >= 0,
                    ;
                    assert(thres as int <= v@);
                }
                let curr = 2 * cfg.curr_start;
                let step = cfg.curr_start + cfg.curr_start / 2;
                if curr > cfg.curr_limit {
                    self.phase = SweepPhase::Aborted;
                    return SweepAction::Shutdown { error: LabError::DomainLimit };
                }
                self.phase = SweepPhase::Ramp { thres, curr, step };
                SweepAction::SetCurrent { micro_amps: curr, settle_s: cfg.settle_ramp_s }
            },
            SweepPhase::Ramp { thres, curr, step } => {
                if v.micro < thres {
                    self.enter_refine_exec(thres, curr, step)
                } else if curr + step > cfg.curr_limit {
                    self.phase = SweepPhase::Aborted;
                    SweepAction::Shutdown { error: LabError::DomainLimit }
                } else {
                    let new_curr = curr + step;
                    let new_step = step + step / 2;
                    self.phase = SweepPhase::Ramp { thres, curr: new_curr, step: new_step };
                    SweepAction::SetCurrent { micro_amps: new_curr, settle_s: cfg.settle_ramp_s }
                }
            },
            SweepPhase::SearchSettle { thres, curr, step } => {
                let sign: i64 = if v.micro > thres {
                    1
                } else if v.micro < thres {
                    -1
                } else {
                    0
                };
                let delta: i64 = if sign > 0 {
                    step
                } else if sign < 0 {
                    -step
                } else {
                    0
                };
                proof {
                    assert(delta as int == sign as int * step as int) by {
                        if sign == 1 {
                            assert(1 * (step as int) == step as int);
                        } else if sign == -1 {
                            assert((-1) * (step as int) == -(step as int));
                        } else {
                            assert(0 * (step as int) == 0);
                        }
                    }
                }
                let next = curr + delta;
                if next > CURR_ABS_GUARD || next < -CURR_ABS_GUARD {
                    self.phase = SweepPhase::Aborted;
                    return SweepAction::Shutdown { error: LabError::DomainLimit };
                }
                self.phase = SweepPhase::Search { thres, curr: next, step, sign, taken: 1 };
                SweepAction::SetCurrent { micro_amps: next, settle_s: cfg.settle_search_s }
            },
            SweepPhase::Search { thres, curr, step, sign, taken } => {
                let s2: i64 = if v.micro > thres {
                    1
                } else if v.micro < thres {
                    -1
                } else {
                    0
                };
                if s2 != sign {
                    let new_step = if taken < 2 {
                        step / 2
                    } else {
                        step
                    };
                    self.enter_refine_exec(thres, curr, new_step)
                } else {
                    let delta: i64 = if sign > 0 {
                        step
                    } else if sign < 0 {
                        -step
                    } else {
                        0
                    };
                    proof {
                        assert(delta as int == sign as int * step as int) by {
                            if sign == 1 {
                                assert(1 * (step as int) == step as int);
                            } else if sign == -1 {
                                assert((-1) * (step as int) == -(step as int));
                            } else {
                                assert(0 * (step as int) == 0);
                            }
                        }
                    }
                    let next = curr + delta;
                    if next > CURR_ABS_GUARD || next < -CURR_ABS_GUARD {
                        self.phase = SweepPhase::Aborted;
                        return SweepAction::Shutdown { error: LabError::DomainLimit };
                    }
                    let new_taken: u64 = if taken == u64::MAX {
                        taken
                    } else {
                        taken + 1
                    };
                    self.phase = SweepPhase::Search {
                        thres,
                        curr: next,
                        step,
                        sign,
                        taken: new_taken,
                    };
                    SweepAction::SetCurrent { micro_amps: next, settle_s: cfg.settle_search_s }
                }
            },
            SweepPhase::Done { .. } => SweepAction::Shutdown { error: LabError::DomainLimit },
            SweepPhase::Aborted => SweepAction::Shutdown { error: LabError::DomainLimit },
        }
    }

    /// Ends or continues refinement at `curr` with the given step.
    fn enter_refine_exec(&mut self, thres: i64, curr: i64, step: i64) -> (a: SweepAction)
        requires
            old(self).wf(),
            0 <= thres <= SCALAR_ABS_MAX,
            step <= old(self).cfg.curr_limit,
            -CURR_ABS_GUARD <= curr <= CURR_ABS_GUARD,
        ensures
            final(self).cfg == old(self).cfg,
            final(self).wf(),
            (final(self).phase, a) == enter_refine(
                old(self).cfg,
                thres as int,
                curr as int,
                step as int,
            ),
    {
        if step <= self.cfg.curr_start {
            self.phase = SweepPhase::Done { curr };
            SweepAction::Finished { curr }
        } else {
            self.phase = SweepPhase::SearchSettle { thres, curr, step };
            SweepAction::SetCurrent { micro_amps: curr, settle_s: self.cfg.settle_ramp_s }
        }
    }

    /// Records a driver-side failure mid-run: the run is abandoned and
    /// the driver is told to shut the load down, best effort, before it
    /// reports the error, as the safety policy requires.
    pub fn on_error(&mut self, error: LabError) -> (a: SweepAction)
        requires
            old(self).wf(),
        ensures
            final(self).cfg == old(self).cfg,
            final(self).wf(),
            final(self).phase is Aborted,
            a == (SweepAction::Shutdown { error }),
    {
        self.phase = SweepPhase::Aborted;
        SweepAction::Shutdown { error }
    }
}


/// The step size a phase is working with, zero once the run has ended.
pub open spec fn phase_step_size(p: SweepPhase) -> int {
    match p {
        SweepPhase::Ramp { step, .. } => step as int,
        SweepPhase::SearchSettle { step, .. } => step as int,
        SweepPhase::Search { step, .. } => step as int,
        _ => 0,
    }
}

/// A sub-search never completes without having taken at least one step,
/// and a sub-search that completed within its first step strictly shrinks
/// the refinement step, so refinement always makes progress toward the
/// resolution.
pub proof fn law_step_count_policy(
    cfg: SweepConfig,
    thres: i64,
    curr: i64,
    step: i64,
    sign: i64,
    taken: u64,
    v: int,
)
    requires
        cfg.wf(),
        phase_wf(cfg, SweepPhase::Search { thres, curr, step, sign, taken }),
        signum(v - thres as int) != sign as int,
    ensures
        taken >= 1,
        ({
            let (p2, a) = search_step(cfg, thres as int, curr as int, step as int, sign as int, taken, v);
            &&& p2 is Done || p2 is SearchSettle
            &&& taken < 2 ==> phase_step_size(p2) < step || p2 is Done
            &&& (taken < 2 && p2 is SearchSettle) ==> phase_step_size(p2) == step as int / 2
            &&& (taken >= 2 && p2 is SearchSettle) ==> phase_step_size(p2) == step as int
        }),
{
}

/// Every coarse-ramp move makes strict progress: while the voltage stays
/// at or above the threshold and the ceiling is not hit, the current
/// strictly grows by the whole step and the step never shrinks, so the
/// ramp must reach either a crossing or the ceiling.
pub proof fn law_ramp_progress(cfg: SweepConfig, thres: i64, curr: i64, step: i64, v: int)
    requires
        cfg.wf(),
        phase_wf(cfg, SweepPhase::Ramp { thres, curr, step }),
        v >= thres as int,
        curr as int + step as int <= cfg.curr_limit as int,
    ensures
        ({
            let (p2, a) = ramp_step(cfg, thres as int, curr as int, step as int, v);
            &&& p2 is Ramp
            &&& (p2 matches SweepPhase::Ramp { thres: t2, curr: c2, step: s2 } ==> t2 == thres
                && c2 as int == curr as int + step as int && s2 >= step)
        }),
{
}

/// The hard-limit abort: while no crossing has been seen, a ramp move that
/// would push the current past the configured ceiling abandons the run and
/// orders the shutdown that disables the load input, with the domain-limit
/// error.
pub proof fn law_hard_limit_abort(cfg: SweepConfig, thres: i64, curr: i64, step: i64, v: int)
    requires
        cfg.wf(),
        phase_wf(cfg, SweepPhase::Ramp { thres, curr, step }),
        v >= thres as int,
        curr as int + step as int > cfg.curr_limit as int,
    ensures
        ramp_step(cfg, thres as int, curr as int, step as int, v) == (
            SweepPhase::Aborted,
            SweepAction::Shutdown { error: LabError::DomainLimit },
        ),
{
}


/// An ideal linear source for dry runs: its voltage falls by `k`
/// micro-volts for every micro-ampere drawn, starting from `v0`, and the
/// reading is clamped to the scalar range like any wire value.
#[derive(Clone, Copy, Debug, PartialEq, Eq, Structural)]
pub struct LinearModel {
    /// Unloaded voltage, in micro-volts.
    pub v0: i64,
    /// Slope, in micro-volts per micro-ampere (equivalently volts per
    /// ampere).
    pub k: i64,
}

impl LinearModel {
    pub open spec fn wf(&self) -> bool {
        &&& 0 <= self.v0 <= SCALAR_ABS_MAX
        &&& 1 <= self.k <= 1_000_000
    }

    /// The unclamped line.
    pub open spec fn raw_spec(&self, i: int) -> int {
        self.v0 - self.k * i
    }

    /// What a measurement at current `i` reads: the line, clamped to the
    /// scalar range.
    pub open spec fn v_spec(&self, i: int) -> int {
        let raw = self.raw_spec(i);
        if raw > SCALAR_ABS_MAX as int {
            SCALAR_ABS_MAX as int
        } else if raw < -(SCALAR_ABS_MAX as int) {
            -(SCALAR_ABS_MAX as int)
        } else {
            raw
        }
    }

    /// Samples the source at a current.
    pub fn measure(&self, i: i64) -> (r: Scalar)
        requires
            self.wf(),
            -CURR_ABS_GUARD <= i <= CURR_ABS_GUARD,
        ensures
            r@ == self.v_spec(i as int),
            r.wf(),
    {
        proof {
            assert(self.k * i <= 1_000_000i64 * CURR_ABS_GUARD) by (nonlinear_arith)
                requires
                    1 <= self.k <= 1_000_000,
                    i <= CURR_ABS_GUARD,
                    -CURR_ABS_GUARD <= i,
            ;
            assert(self.k * i >= -(1_000_000i64 * CURR_ABS_GUARD)) by (nonlinear_arith)
                requires
                    1 <= self.k <= 1_000_000,
                    i <= CURR_ABS_GUARD,
                    -CURR_ABS_GUARD <= i,
            ;
        }
        let raw = self.v0 - self.k * i;
        if raw > SCALAR_ABS_MAX {
            Scalar { micro: SCALAR_ABS_MAX }
        } else if raw < -SCALAR_ABS_MAX {
            Scalar { micro: -SCALAR_ABS_MAX }
        } else {
            Scalar { micro: raw }
        }
    }
}

/// The true crossing of the ideal source: the smallest current at which
/// its voltage sits strictly below the threshold.
pub open spec fn cross_of(m: LinearModel, thres: int) -> int {
    (m.v0 - thres) / (m.k as int) + 1
}

/// `cross_of` is exactly the crossing: the line sits below the threshold
/// at a current if and only if the current is at or past it.
proof fn lemma_cross_char(m: LinearModel, thres: int, i: int)
    requires
        m.wf(),
    ensures
        (m.raw_spec(i) < thres) <==> (i >= cross_of(m, thres)),
{
    let k = m.k as int;
    let d = m.v0 - thres;
    let q = d / k;
    let rr = d % k;
    vstd::arithmetic::div_mod::lemma_fundamental_div_mod(d, k);
    vstd::arithmetic::div_mod::lemma_mod_bound(d, k);
    if i >= q + 1 {
        assert(k * i >= k * (q + 1)) by (nonlinear_arith)
            requires
                k >= 1,
                i >= q + 1,
        ;
        assert(k * (q + 1) == k * q + k) by (nonlinear_arith);
        assert(m.raw_spec(i) < thres);
    } else {
        assert(k * i <= k * q) by (nonlinear_arith)
            requires
                k >= 1,
                i <= q,
        ;
        assert(m.raw_spec(i) >= thres);
    }
}

/// Clamping never changes which side of an in-range threshold a reading
/// sits on.
proof fn lemma_clamp_side(m: LinearModel, thres: int, i: int)
    requires
        m.wf(),
        0 <= thres < SCALAR_ABS_MAX as int,
    ensures
        signum(m.v_spec(i) - thres) == signum(m.raw_spec(i) - thres),
        (m.v_spec(i) < thres) <==> (m.raw_spec(i) < thres),
        (m.v_spec(i) == thres) <==> (m.raw_spec(i) == thres),
{
}

/// Stepping one micro-ampere up drops the line by the slope.
proof fn lemma_raw_step(m: LinearModel, i: int)
    requires
        m.wf(),
    ensures
        m.raw_spec(i + 1) == m.raw_spec(i) - m.k,
{
    assert(m.k * (i + 1) == m.k * i + m.k) by (nonlinear_arith);
}

/// The threshold lies between zero and the initial voltage, strictly
/// below the scalar ceiling.
proof fn lemma_threshold_bounds(v: int, drop_ppm: int)
    requires
        0 <= v <= SCALAR_ABS_MAX as int,
        1 <= drop_ppm <= 1_000_000,
    ensures
        0 <= threshold_spec(v, drop_ppm),
        threshold_spec(v, drop_ppm) <= v,
        threshold_spec(v, drop_ppm) < SCALAR_ABS_MAX as int,
{
    let p = v * (1_000_000 - drop_ppm);
    let t = threshold_spec(v, drop_ppm);
    assert(0 <= p <= v * 1_000_000 - v) by (nonlinear_arith)
        requires
            0 <= v,
            1 <= drop_ppm <= 1_000_000,
            p == v * (1_000_000 - drop_ppm),
    ;
    vstd::arithmetic::div_mod::lemma_fundamental_div_mod(p, 1_000_000);
    vstd::arithmetic::div_mod::lemma_mod_bound(p, 1_000_000);
    assert(t >= 0) by (nonlinear_arith)
        requires
            p == t * 1_000_000 + p % 1_000_000,
            0 <= p % 1_000_000 < 1_000_000,
            p >= 0,
    ;
    assert(t * 1_000_000 <= v * 1_000_000 - v);
    if v == 0 {
        assert(t == 0);
    } else {
        assert(t < v) by (nonlinear_arith)
            requires
                t * 1_000_000 <= v * 1_000_000 - v,
                v >= 1,
                t >= 0,
        ;
    }
}


/// How a dry run against an ideal source ended.
#[derive(Clone, Copy, Debug, PartialEq, Eq, Structural)]
pub enum SimOutcome {
    /// The crossing was located at this current.
    Finished { curr: i64 },
    /// The run was abandoned with this error; `input_disabled` records
    /// that the shutdown request, which disables the load input, was
    /// honoured before the error was reported.
    Aborted { error: LabError, input_disabled: bool },
    /// The event budget ran out before the run ended.
    OutOfFuel,
}

/// The threshold a run against this source computes: the voltage read at
/// the start current, scaled down by the drop target.
pub open spec fn sim_thres0(m: LinearModel, cfg: SweepConfig) -> int {
    threshold_spec(m.v_spec(cfg.curr_start as int), cfg.drop_ppm as int)
}

spec fn sim_inv(m: LinearModel, cfg: SweepConfig, sw: Sweep, act: SweepAction, prev: int) -> bool {
    let th0 = sim_thres0(m, cfg);
    let ix = cross_of(m, th0);
    &&& sw.cfg == cfg
    &&& sw.wf()
    &&& match sw.phase {
        SweepPhase::Init => act == (SweepAction::SetCurrent {
            micro_amps: cfg.curr_start,
            settle_s: cfg.settle_initial_s,
        }),
        SweepPhase::Ramp { thres, curr, step } => {
            &&& act == (SweepAction::SetCurrent { micro_amps: curr, settle_s: cfg.settle_ramp_s })
            &&& thres as int == th0
            &&& th0 < SCALAR_ABS_MAX as int
            &&& m.raw_spec(prev) >= th0
            &&& prev < curr as int
            &&& curr as int - prev <= step as int
        },
        SweepPhase::SearchSettle { thres, curr, step } => {
            &&& act == (SweepAction::SetCurrent { micro_amps: curr, settle_s: cfg.settle_ramp_s })
            &&& thres as int == th0
            &&& th0 < SCALAR_ABS_MAX as int
            &&& ix <= cfg.curr_limit as int
            &&& ix - curr as int <= 2 * step as int + 1
            &&& curr as int - ix <= 2 * step as int + 1
        },
        SweepPhase::Search { thres, curr, step, sign, taken } => {
            &&& act == (SweepAction::SetCurrent { micro_amps: curr, settle_s: cfg.settle_search_s })
            &&& thres as int == th0
            &&& th0 < SCALAR_ABS_MAX as int
            &&& ix <= cfg.curr_limit as int
            &&& (sign == 1 ==> (curr as int - step as int) < ix)
            &&& (sign == -1 ==> ix <= curr as int + step as int)
            &&& (sign == 0 ==> m.raw_spec(curr as int) == th0)
        },
        SweepPhase::Done { curr } => {
            &&& act == (SweepAction::Finished { curr })
            &&& ix <= cfg.curr_limit as int
            &&& curr as int - ix <= 2 * cfg.curr_start as int + 1
            &&& ix - curr as int <= 2 * cfg.curr_start as int + 1
        },
        SweepPhase::Aborted => act == (SweepAction::Shutdown { error: LabError::DomainLimit }),
    }
}

/// Runs the controller against an ideal linear source, standing in for
/// the driver loop: every requested set-point is answered with the
/// source's voltage at that current, and a shutdown request is recorded
/// as having disabled the load input before the error is reported.
///
/// Whenever a run ends with a located crossing, that current lies within
/// twice the configured resolution (plus one micro-ampere of rounding) of
/// the source's true crossing, and the true crossing lies under the hard
/// ceiling; in particular a ceiling below the true crossing can never end
/// in success, only in a domain-limit abort after shutdown, or in an
/// exhausted event budget.
///
/// A verdict is also owed: with an event budget of at least
/// [`needed_events`] the run cannot exhaust it, except against the
/// degenerate sources of [`threshold_exact_hit`], where a refinement
/// round can settle exactly on the threshold and poll that point forever.
#[verifier::rlimit(100)]
pub fn simulate_sweep(model: LinearModel, cfg: SweepConfig, fuel: u64) -> (r: SimOutcome)
    requires
        model.wf(),
        cfg.wf(),
    ensures
        ({
            let th0 = sim_thres0(model, cfg);
            let ix = cross_of(model, th0);
            &&& (r matches SimOutcome::Finished { curr } ==> curr as int - ix <= 2
                * cfg.curr_start as int + 1 && ix - curr as int <= 2 * cfg.curr_start as int + 1
                && ix <= cfg.curr_limit as int)
            &&& (ix > cfg.curr_limit as int ==> !(r is Finished))
            &&& (r matches SimOutcome::Aborted { error, input_disabled } ==> error
                == LabError::DomainLimit && input_disabled)
            &&& (fuel as int >= needed_events(cfg) && !threshold_exact_hit(model, cfg) ==> !(r
                is OutOfFuel))
        }),
{
    let (mut sw, mut act) = match Sweep::new(cfg) {
        Ok(p) => p,
        Err(_) => {
            return SimOutcome::OutOfFuel;
        },
    };
    let ghost mut prev: int = cfg.curr_start as int;
    let mut fuel_left = fuel;
    loop
        invariant
            model.wf(),
            cfg.wf(),
            sim_inv(model, cfg, sw, act, prev),
            fuel_left <= fuel,
            !threshold_exact_hit(model, cfg) ==> sim_live_inv(model, cfg, sw),
            !threshold_exact_hit(model, cfg) ==> (fuel - fuel_left) as int + sim_rank(
                cfg,
                cross_of(model, sim_thres0(model, cfg)),
                sw.phase,
            ) <= needed_events(cfg) - 1,
        decreases fuel_left,
    {
        match act {
            SweepAction::Finished { curr } => {
                return SimOutcome::Finished { curr };
            },
            SweepAction::Shutdown { error } => {
                return SimOutcome::Aborted { error, input_disabled: true };
            },
            SweepAction::SetCurrent { micro_amps, .. } => {
                if fuel_left == 0 {
                    proof {
                        if !threshold_exact_hit(model, cfg) {
                            lemma_rank_nonneg(
                                cfg,
                                cross_of(model, sim_thres0(model, cfg)),
                                sw.phase,
                            );
                        }
                    }
                    return SimOutcome::OutOfFuel;
                }
                fuel_left = fuel_left - 1;
                let v = model.measure(micro_amps);
                let ghost old_phase = sw.phase;
                act = sw.on_voltage(v);
                proof {
                    let th0 = sim_thres0(model, cfg);
                    let ix = cross_of(model, th0);
                    match old_phase {
                        SweepPhase::Init => {
                            if v@ >= 0 {
                                lemma_threshold_bounds(v@, cfg.drop_ppm as int);
                                if 2 * cfg.curr_start as int <= cfg.curr_limit as int {
                                    prev = cfg.curr_start as int;
                                    lemma_clamp_side(model, th0, prev);
                                }
                            }
                            if !threshold_exact_hit(model, cfg) {
                                lemma_halvings_nonneg(
                                    cfg.curr_limit as int,
                                    cfg.curr_start as int,
                                );
                                assert(sim_rank(cfg, ix, sw.phase) <= sim_rank(
                                    cfg,
                                    ix,
                                    old_phase,
                                ) - 1);
                            }
                        },
                        SweepPhase::Ramp { thres, curr, step } => {
                            lemma_clamp_side(model, th0, curr as int);
                            if v@ < thres as int {
                                lemma_cross_char(model, th0, curr as int);
                                lemma_cross_char(model, th0, prev);
                            } else if curr as int + step as int <= cfg.curr_limit as int {
                                prev = curr as int;
                            }
                            if !threshold_exact_hit(model, cfg) {
                                lemma_halvings_nonneg(
                                    cfg.curr_limit as int,
                                    cfg.curr_start as int,
                                );
                                if v@ < thres as int {
                                    assert(curr as int - ix < step as int);
                                    lemma_halvings_mono(
                                        step as int,
                                        cfg.curr_limit as int,
                                        cfg.curr_start as int,
                                    );
                                }
                                assert(sim_rank(cfg, ix, sw.phase) <= sim_rank(
                                    cfg,
                                    ix,
                                    old_phase,
                                ) - 1);
                            }
                        },
                        SweepPhase::SearchSettle { thres, curr, step } => {
                            lemma_clamp_side(model, th0, curr as int);
                            lemma_cross_char(model, th0, curr as int);
                            if !threshold_exact_hit(model, cfg) {
                                lemma_no_exact_read(model, cfg, curr as int);
                                lemma_halvings_nonneg(step as int, cfg.curr_start as int);
                                assert(sim_rank(cfg, ix, sw.phase) <= sim_rank(
                                    cfg,
                                    ix,
                                    old_phase,
                                ) - 1);
                                assert(sim_live_inv(model, cfg, sw));
                            }
                        },
                        SweepPhase::Search { thres, curr, step, sign, taken } => {
                            lemma_clamp_side(model, th0, curr as int);
                            lemma_cross_char(model, th0, curr as int);
                            let s2 = signum(model.v_spec(curr as int) - th0);
                            if s2 != sign as int {
                                if sign == 1 {
                                    if model.raw_spec(curr as int) == th0 {
                                        lemma_raw_step(model, curr as int);
                                        lemma_cross_char(model, th0, curr as int + 1);
                                    }
                                } else if sign == -1 {
                                } else {
                                    assert(false);
                                }
                                if taken < 2 {
                                    vstd::arithmetic::div_mod::lemma_fundamental_div_mod(
                                        step as int,
                                        2,
                                    );
                                    vstd::arithmetic::div_mod::lemma_mod_bound(step as int, 2);
                                }
                            } else {
                                if sign == 1 {
                                    assert(sign as int * step as int == step as int)
                                        by (nonlinear_arith)
                                        requires
                                            sign as int == 1,
                                    ;
                                    assert((curr as int) < ix);
                                } else if sign == -1 {
                                    assert(sign as int * step as int == -(step as int))
                                        by (nonlinear_arith)
                                        requires
                                            sign as int == -1,
                                    ;
                                    assert(ix <= curr as int);
                                } else {
                                    assert(sign as int * step as int == 0) by (nonlinear_arith)
                                        requires
                                            sign as int == 0,
                                    ;
                                }
                            }
                            if !threshold_exact_hit(model, cfg) {
                                lemma_no_exact_read(model, cfg, curr as int);
                                lemma_halvings_nonneg(step as int, cfg.curr_start as int);
                                if s2 != sign as int && taken < 2 {
                                    assert(halvings(step as int, cfg.curr_start as int) == 1
                                        + halvings(step as int / 2, cfg.curr_start as int));
                                    lemma_halvings_nonneg(
                                        step as int / 2,
                                        cfg.curr_start as int,
                                    );
                                }
                                assert(sim_rank(cfg, ix, sw.phase) <= sim_rank(
                                    cfg,
                                    ix,
                                    old_phase,
                                ) - 1);
                                assert(sim_live_inv(model, cfg, sw));
                            }
                        },
                        _ => {},
                    }
                }
            },
        }
    }
}

} // verus!

verus! {

/// How many times `step` must be halved (rounding down) before it is
/// within the resolution `start`.
pub open spec fn halvings(step: int, start: int) -> int
    decreases step,
{
    if step <= start || step <= 0 {
        0
    } else {
        1 + halvings(step / 2, start)
    }
}

proof fn lemma_halvings_nonneg(step: int, start: int)
    ensures
        halvings(step, start) >= 0,
    decreases step,
{
    if !(step <= start || step <= 0) {
        lemma_halvings_nonneg(step / 2, start);
    }
}

proof fn lemma_halvings_mono(s1: int, s2: int, start: int)
    requires
        s1 <= s2,
    ensures
        halvings(s1, start) <= halvings(s2, start),
    decreases s2,
{
    if s2 <= start || s2 <= 0 {
    } else if s1 <= start || s1 <= 0 {
        lemma_halvings_nonneg(s2, start);
    } else {
        lemma_halvings_mono(s1 / 2, s2 / 2, start);
    }
}

/// The degenerate family of ideal sources: some current reads exactly the
/// run's threshold, so a refinement round that settles at that current
/// reads a zero sign and polls the same point forever (the open
/// zero-crossing case of the design).  Every other source is ruled by the
/// liveness clause of [`simulate_sweep`].  The exclusion is conservative:
/// a run over such a source still terminates unless it actually settles
/// on the exact point; only the guarantee is withheld.
pub open spec fn threshold_exact_hit(m: LinearModel, cfg: SweepConfig) -> bool {
    (m.v0 - sim_thres0(m, cfg)) % (m.k as int) == 0
}

proof fn lemma_no_exact_read(m: LinearModel, cfg: SweepConfig, i: int)
    requires
        m.wf(),
        !threshold_exact_hit(m, cfg),
    ensures
        m.raw_spec(i) != sim_thres0(m, cfg),
{
    let th = sim_thres0(m, cfg);
    if m.raw_spec(i) == th {
        assert(m.v0 - th == m.k * i);
        assert(m.k as int * i == i * (m.k as int)) by (nonlinear_arith);
        vstd::arithmetic::div_mod::lemma_mod_multiples_basic(i, m.k as int);
        assert(false);
    }
}

/// An event budget that certainly suffices for a whole run against a
/// non-degenerate ideal source: the coarse ramp takes at most one event
/// per micro-ampere below the ceiling, and each halving of the refinement
/// step costs a bounded handful of events.
pub open spec fn needed_events(cfg: SweepConfig) -> int {
    (cfg.curr_limit - cfg.curr_start) as int + 8 * halvings(
        cfg.curr_limit as int,
        cfg.curr_start as int,
    ) + 5
}

/// Events a refinement settle may still need with the current step: two
/// where the bracket is within one step, more where the bracket is wider.
spec fn settle_budget(ix: int, curr: int, step: int) -> int {
    if curr >= ix {
        if curr - ix < step {
            2
        } else if curr - ix <= 2 * step {
            6
        } else {
            7
        }
    } else {
        if ix - curr <= step {
            2
        } else if ix - curr <= 2 * step {
            6
        } else {
            7
        }
    }
}

/// Events a running sub-search may still need with the current step.
spec fn search_budget(ix: int, curr: int, step: int, sign: int, taken: u64) -> int {
    if sign == 1 {
        if curr >= ix {
            if taken == 1 {
                1
            } else {
                3
            }
        } else {
            if ix - curr <= step {
                4
            } else {
                5
            }
        }
    } else if sign == -1 {
        if curr < ix {
            if taken == 1 {
                1
            } else {
                3
            }
        } else {
            if curr - ix < step {
                4
            } else {
                5
            }
        }
    } else {
        0
    }
}

/// The ranking of a run's state: an upper bound on the events it can
/// still consume, strictly decreasing with every measurement of a
/// non-degenerate source.
spec fn sim_rank(cfg: SweepConfig, ix: int, phase: SweepPhase) -> int {
    match phase {
        SweepPhase::Init => (cfg.curr_limit - cfg.curr_start) as int + 8 * halvings(
            cfg.curr_limit as int,
            cfg.curr_start as int,
        ) + 4,
        SweepPhase::Ramp { thres, curr, step } => (cfg.curr_limit - curr) as int + 8 * halvings(
            cfg.curr_limit as int,
            cfg.curr_start as int,
        ) + 3,
        SweepPhase::SearchSettle { thres, curr, step } => 8 * halvings(
            step as int,
            cfg.curr_start as int,
        ) + settle_budget(ix, curr as int, step as int),
        SweepPhase::Search { thres, curr, step, sign, taken } => 8 * halvings(
            step as int,
            cfg.curr_start as int,
        ) + search_budget(ix, curr as int, step as int, sign as int, taken),
        _ => 0,
    }
}

/// The extra facts a run over a non-degenerate source maintains: a
/// sub-search never carries a zero sign, and its position stays within
/// one step and one micro-ampere of the crossing on the unfinished side.
spec fn sim_live_inv(m: LinearModel, cfg: SweepConfig, sw: Sweep) -> bool {
    let ix = cross_of(m, sim_thres0(m, cfg));
    match sw.phase {
        SweepPhase::Search { thres, curr, step, sign, taken } => {
            &&& sign != 0
            &&& (sign == 1 && (curr as int) < ix ==> ix - curr as int <= step as int + 1)
            &&& (sign == -1 && curr as int >= ix ==> curr as int - ix <= step as int + 1)
        },
        _ => true,
    }
}

proof fn lemma_rank_nonneg(cfg: SweepConfig, ix: int, phase: SweepPhase)
    requires
        cfg.wf(),
        phase_wf(cfg, phase),
    ensures
        sim_rank(cfg, ix, phase) >= 0,
{
    lemma_halvings_nonneg(cfg.curr_limit as int, cfg.curr_start as int);
    match phase {
        SweepPhase::SearchSettle { step, .. } => {
            lemma_halvings_nonneg(step as int, cfg.curr_start as int);
        },
        SweepPhase::Search { step, .. } => {
            lemma_halvings_nonneg(step as int, cfg.curr_start as int);
        },
        _ => {},
    }
}

} // verus!
