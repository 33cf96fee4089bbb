//! Opt-in measurements of a run. Times are microseconds.

use vstd::prelude::*;

use crate::config::schema::Config;

verus! {

/// The beginning of a measured stage; none where nothing is measured.
pub fn sample_start(enabled: bool, now: u64) -> (r: Option<u64>)
    ensures
        r == (if enabled {
            Some(now)
        } else {
            None
        }),
{
    if enabled {
        Some(now)
    } else {
        None
    }
}

/// The time between two moments; zero where the second is not later.
pub open spec fn time_between(start: u64, now: u64) -> int {
    if now >= start {
        now - start
    } else {
        0
    }
}

fn between(start: u64, now: u64) -> (r: u64)
    ensures
        r == time_between(start, now),
{
    if now >= start {
        now - start
    } else {
        0
    }
}

/// The duration of a measured stage; none where nothing is measured.
pub fn stage_elapsed(started: Option<u64>, now: u64) -> (r: Option<u64>)
    ensures
        match started {
            Some(start) => r is Some && r->0 == time_between(start, now),
            None => r is None,
        },
{
    match started {
        Some(start) => Some(between(start, now)),
        None => None,
    }
}

/// The measurements of a run.
#[derive(Debug, Clone, Copy, PartialEq, Eq)]
pub struct Diagnostics {
    pub enabled: bool,
    pub main_enter: u64,
    /// Creation of the process in units of 100 nanoseconds.
    pub process_created: Option<u64>,
    pub interval: u64,
    pub last_report: u64,
    pub restart_started: Option<u64>,
    pub ready: bool,
    pub restart_acks: u64,
    pub rollbacks: u64,
}

/// What is reported when input is ready.
#[derive(Debug, Clone, Copy, PartialEq, Eq)]
pub struct ReadyReport {
    pub main_elapsed: u64,
    pub process_elapsed: Option<u64>,
}

impl Diagnostics {
    /// Starts the measurements. The creation time of the process is taken only where they are
    /// enabled.
    pub fn new(config: &Config, main_enter: u64, process_created: Option<u64>, now: u64) -> (r: Self)
        ensures
            r == (Diagnostics {
                enabled: config.metrics_enabled,
                main_enter,
                process_created: if config.metrics_enabled {
                    process_created
                } else {
                    None
                },
                interval: (config.metrics_interval_s * 1000000) as u64,
                last_report: now,
                restart_started: None,
                ready: false,
                restart_acks: 0,
                rollbacks: 0,
            }),
    {
        Diagnostics {
            enabled: config.metrics_enabled,
            main_enter,
            process_created: if config.metrics_enabled {
                process_created
            } else {
                None
            },
            interval: config.metrics_interval_s as u64 * 1000000,
            last_report: now,
            restart_started: None,
            ready: false,
            restart_acks: 0,
            rollbacks: 0,
        }
    }

    /// Reports once that input is ready; `system` is the time in units of 100 nanoseconds.
    pub fn input_ready(&mut self, now: u64, system: u64) -> (r: Option<ReadyReport>)
        ensures
            if !old(self).enabled || old(self).ready {
                r is None && *final(self) == *old(self)
            } else {
                &&& *final(self) == (Diagnostics { ready: true, ..*old(self) })
                &&& r is Some
                &&& r->0.main_elapsed == time_between(old(self).main_enter, now)
                &&& r->0.process_elapsed == (match old(self).process_created {
                    Some(created) => if system >= created {
                        Some(((system - created) / 10) as u64)
                    } else {
                        None
                    },
                    None => None,
                })
            },
    {
        if !self.enabled || self.ready {
            return None;
        }
        self.ready = true;
        let process_elapsed = match self.process_created {
            Some(created) => if system >= created {
                Some((system - created) / 10)
            } else {
                None
            },
            None => None,
        };
        Some(ReadyReport { main_elapsed: between(self.main_enter, now), process_elapsed })
    }

    /// The time until the auxiliary services were started; none where nothing is measured.
    pub fn auxiliary_completed(&self, now: u64) -> (r: Option<u64>)
        ensures
            if self.enabled {
                r is Some && r->0 == time_between(self.main_enter, now)
            } else {
                r is None
            },
    {
        if self.enabled {
            Some(between(self.main_enter, now))
        } else {
            None
        }
    }

    /// Takes note that a restart begins.
    pub fn begin_restart(&mut self, now: u64)
        ensures
            *final(self) == (if old(self).enabled {
                Diagnostics { restart_started: Some(now), ..*old(self) }
            } else {
                *old(self)
            }),
    {
        if self.enabled {
            self.restart_started = Some(now);
        }
    }

    /// Takes note that a restart was acknowledged; returns how long it took.
    pub fn restart_ack(&mut self, now: u64) -> (r: Option<u64>)
        requires
            old(self).restart_acks < u64::MAX,
        ensures
            if old(self).enabled {
                &&& *final(self) == (Diagnostics {
                    restart_acks: (old(self).restart_acks + 1) as u64,
                    ..*old(self)
                })
                &&& r is Some
                &&& r->0 == (match old(self).restart_started {
                    Some(start) => time_between(start, now),
                    None => 0,
                })
            } else {
                r is None && *final(self) == *old(self)
            },
    {
        if !self.enabled {
            return None;
        }
        self.restart_acks = self.restart_acks + 1;
        match self.restart_started {
            Some(start) => Some(between(start, now)),
            None => Some(0),
        }
    }

    /// Takes note of a rollback.
    pub fn rollback(&mut self)
        requires
            old(self).rollbacks < u64::MAX,
        ensures
            *final(self) == (if old(self).enabled {
                Diagnostics { rollbacks: (old(self).rollbacks + 1) as u64, ..*old(self) }
            } else {
                *old(self)
            }),
    {
        if self.enabled {
            self.rollbacks = self.rollbacks + 1;
        }
    }

    /// Whether a summary is due at a moment, and the measurements after it is written.
    pub open spec fn ticking(self, now: u64) -> (Diagnostics, bool) {
        if self.enabled && time_between(self.last_report, now) >= self.interval {
            (Diagnostics { last_report: now, ..self }, true)
        } else {
            (self, false)
        }
    }

    /// Whether a summary is due; it is then taken as written.
    pub fn tick(&mut self, now: u64) -> (r: bool)
        ensures
            r == (old(self).enabled && time_between(old(self).last_report, now)
                >= old(self).interval),
            *final(self) == (if r {
                Diagnostics { last_report: now, ..*old(self) }
            } else {
                *old(self)
            }),
            (*final(self), r) == old(self).ticking(now),
    {
        if !self.enabled || between(self.last_report, now) < self.interval {
            return false;
        }
        self.last_report = now;
        true
    }
}

/// A Windows file time in units of 100 nanoseconds from its two halves.
pub fn ticks(high: u32, low: u32) -> (r: u64)
    ensures
        r == high * 0x1_0000_0000 + low,
{
    high as u64 * 0x1_0000_0000 + low as u64
}

/// A time between two moments is what passed from the first to the second, and nothing where the
/// clock went back.
pub proof fn times_are_differences(start: u64, passed: u64)
    ensures
        start + passed <= u64::MAX ==> time_between(start, (start + passed) as u64) == passed,
        start >= passed ==> time_between(start, (start - passed) as u64) == 0,
{
}

/// Summaries are written one interval apart: after one was due at a moment, the next is due when the
/// interval has passed from there, and not before. Nothing is written where nothing is measured.
pub proof fn summaries_are_an_interval_apart(diagnostics: Diagnostics, then: u64, now: u64)
    requires
        then <= now,
    ensures
        !diagnostics.enabled ==> !diagnostics.ticking(now).1,
        !diagnostics.ticking(then).1 ==> diagnostics.ticking(then).0 == diagnostics,
        diagnostics.ticking(then).1 ==> (diagnostics.ticking(then).0.ticking(now).1 <==> now - then
            >= diagnostics.interval),
        diagnostics.enabled && diagnostics.last_report <= now ==> (diagnostics.ticking(now).1 <==> now
            - diagnostics.last_report >= diagnostics.interval),
        diagnostics.ticking(now).0 == (Diagnostics {
            last_report: diagnostics.ticking(now).0.last_report,
            ..diagnostics
        }),
{
}

}
