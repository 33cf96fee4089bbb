//! Which version of the configuration file is observed, tried and applied. Times are milliseconds.

use vstd::prelude::*;

use crate::config::reload::ConfigCandidate;
use crate::config::storage::same_bytes;

verus! {

/// Longest time between two attempts.
pub const MAX_RETRY_MS: u64 = 30000;

/// A version of the file that was seen.
pub struct Seen {
    pub generation: u64,
    pub contents: Seq<u8>,
    pub since: u64,
    pub retry_at: u64,
    pub attempts: u32,
    pub rejected: bool,
}

/// The state of the tracker. Observing and validating a version do not acknowledge it. Only a
/// completed handoff changes `applied`; a failed version can therefore be tried again.
#[verifier::ext_equal]
pub struct Versions {
    pub observed: u64,
    pub validated: u64,
    pub applied_generation: u64,
    pub applied: Seq<u8>,
    pub current: Option<Seen>,
    pub in_flight: Option<(u64, Seq<u8>)>,
    pub delay: u64,
    pub retry_delay: u64,
    pub retry_limit: u32,
}

pub open spec fn lesser(a: int, b: int) -> int {
    if a <= b {
        a
    } else {
        b
    }
}

/// The sum of a time and a delay, at most the last time there is.
pub open spec fn later(time: u64, delay: int) -> int {
    lesser(time + delay, u64::MAX as int)
}

/// The delay before the attempt after the given number of attempts: it doubles each time, up to
/// thirty-two fold and up to thirty seconds.
pub open spec fn backoff(retry_delay: u64, attempts: u32) -> int {
    let factor = if attempts <= 1 {
        1int
    } else if attempts == 2 {
        2
    } else if attempts == 3 {
        4
    } else if attempts == 4 {
        8
    } else if attempts == 5 {
        16
    } else {
        32
    };
    lesser(retry_delay * factor, MAX_RETRY_MS as int)
}

impl Versions {
    /// The invariant: the attempts stay within the budget, and generations are those observed.
    pub open spec fn valid(self) -> bool {
        &&& self.retry_limit < u32::MAX
        &&& match self.current {
            Some(seen) => seen.attempts <= self.retry_limit + 1 && seen.generation <= self.observed,
            None => true,
        }
        &&& match self.in_flight {
            Some((generation, _)) => generation <= self.observed,
            None => true,
        }
    }

    /// Whether bytes are a version that was not seen yet.
    pub open spec fn is_news(self, bytes: Seq<u8>) -> bool {
        match self.current {
            Some(seen) => seen.contents != bytes,
            None => self.applied != bytes,
        }
    }

    pub open spec fn after_observe(self, bytes: Seq<u8>, now: u64) -> Versions {
        if self.is_news(bytes) {
            let generation = (self.observed + 1) as u64;
            Versions {
                observed: generation,
                current: Some(
                    Seen {
                        generation,
                        contents: bytes,
                        since: now,
                        retry_at: now,
                        attempts: 0,
                        rejected: false,
                    },
                ),
                ..self
            }
        } else {
            self
        }
    }

    pub open spec fn after_unavailable(self) -> Versions {
        if self.current is Some {
            Versions { observed: (self.observed + 1) as u64, current: None, ..self }
        } else {
            self
        }
    }

    /// Whether the current version is due: it is settled, not empty, not the applied one, not
    /// refused, within its budget, and no other version is in flight.
    pub open spec fn due(self, now: u64) -> bool {
        &&& self.in_flight is None
        &&& match self.current {
            Some(seen) => {
                &&& seen.contents.len() > 0
                &&& seen.contents != self.applied
                &&& !seen.rejected
                &&& seen.attempts <= self.retry_limit
                &&& now >= seen.since + self.delay || (now < seen.since && self.delay == 0)
                &&& now >= seen.retry_at
            },
            None => false,
        }
    }

    pub open spec fn after_next(self, now: u64) -> Versions {
        if self.due(now) {
            let seen = self.current->0;
            Versions {
                current: Some(Seen { attempts: (seen.attempts + 1) as u32, ..seen }),
                in_flight: Some((seen.generation, seen.contents)),
                ..self
            }
        } else {
            self
        }
    }

    pub open spec fn after_complete(
        self,
        generation: u64,
        applied: bool,
        retryable: bool,
        now: u64,
    ) -> Versions {
        match self.in_flight {
            Some((flying, contents)) => if flying != generation {
                self
            } else if applied {
                Versions {
                    applied: contents,
                    applied_generation: generation,
                    in_flight: None,
                    ..self
                }
            } else {
                match self.current {
                    Some(seen) => if seen.generation == generation {
                        Versions {
                            current: Some(
                                Seen {
                                    rejected: !retryable,
                                    retry_at: later(
                                        now,
                                        backoff(self.retry_delay, seen.attempts),
                                    ) as u64,
                                    ..seen
                                },
                            ),
                            in_flight: None,
                            ..self
                        }
                    } else {
                        Versions { in_flight: None, ..self }
                    },
                    None => Versions { in_flight: None, ..self },
                }
            },
            None => self,
        }
    }
}

/// The version that was read last.
pub struct Observation {
    pub candidate: ConfigCandidate,
    /// When the version was read first.
    pub since: u64,
    /// When the version may be tried again.
    pub retry_at: u64,
    pub attempts: u32,
    pub rejected: bool,
}

/// Tracks the versions of the configuration file.
pub struct ChangeTracker {
    pub observed: u64,
    pub validated: u64,
    pub applied_generation: u64,
    pub applied: Vec<u8>,
    pub current: Option<Observation>,
    pub in_flight: Option<ConfigCandidate>,
    pub delay: u64,
    pub retry_delay: u64,
    pub retry_limit: u32,
}

impl View for ChangeTracker {
    type V = Versions;

    open spec fn view(&self) -> Versions {
        Versions {
            observed: self.observed,
            validated: self.validated,
            applied_generation: self.applied_generation,
            applied: self.applied@,
            current: match self.current {
                Some(current) => Some(
                    Seen {
                        generation: current.candidate.generation,
                        contents: current.candidate.contents@,
                        since: current.since,
                        retry_at: current.retry_at,
                        attempts: current.attempts,
                        rejected: current.rejected,
                    },
                ),
                None => None,
            },
            in_flight: match self.in_flight {
                Some(candidate) => Some((candidate.generation, candidate.contents@)),
                None => None,
            },
            delay: self.delay,
            retry_delay: self.retry_delay,
            retry_limit: self.retry_limit,
        }
    }
}

/// The numbers that a tracker shows are those of its versions.
pub proof fn tracker_shows_its_versions(tracker: ChangeTracker)
    ensures
        tracker.observed == tracker@.observed,
        tracker.validated == tracker@.validated,
        tracker.applied_generation == tracker@.applied_generation,
{
}

fn copy_bytes(bytes: &Vec<u8>) -> (r: Vec<u8>)
    ensures
        r@ == bytes@,
{
    let mut r: Vec<u8> = Vec::new();
    r.extend_from_slice(bytes.as_slice());
    assert(r@ =~= bytes@);
    r
}

fn backoff_ms(retry_delay: u64, attempts: u32) -> (r: u64)
    ensures
        r == backoff(retry_delay, attempts),
{
    let factor: u128 = if attempts <= 1 {
        1
    } else if attempts == 2 {
        2
    } else if attempts == 3 {
        4
    } else if attempts == 4 {
        8
    } else if attempts == 5 {
        16
    } else {
        32
    };
    let wanted: u128 = retry_delay as u128 * factor;
    if wanted <= MAX_RETRY_MS as u128 {
        wanted as u64
    } else {
        MAX_RETRY_MS
    }
}

impl ChangeTracker {
    /// A tracker for a file whose bytes are applied.
    pub fn new(bytes: Vec<u8>, delay: u64, retry_delay: u64, retry_limit: u32) -> (r: Self)
        requires
            retry_limit < u32::MAX,
        ensures
            r@.valid(),
            r@ == (Versions {
                observed: 0,
                validated: 0,
                applied_generation: 0,
                applied: bytes@,
                current: None,
                in_flight: None,
                delay,
                retry_delay,
                retry_limit,
            }),
    {
        ChangeTracker {
            observed: 0,
            validated: 0,
            applied_generation: 0,
            applied: bytes,
            current: None,
            in_flight: None,
            delay,
            retry_delay,
            retry_limit,
        }
    }

    /// The bytes of the applied version.
    pub fn applied(&self) -> (r: &[u8])
        ensures
            r@ == self@.applied,
    {
        self.applied.as_slice()
    }

    /// Takes note of the bytes of the file.
    pub fn observe(&mut self, bytes: Vec<u8>, now: u64)
        requires
            old(self)@.valid(),
            old(self)@.observed < u64::MAX,
        ensures
            final(self)@.valid(),
            final(self)@ == old(self)@.after_observe(bytes@, now),
    {
        if let Some(current) = &self.current {
            if same_bytes(current.candidate.contents.as_slice(), bytes.as_slice()) {
                return ;
            }
        } else if same_bytes(self.applied.as_slice(), bytes.as_slice()) {
            return ;
        }
        self.observed = self.observed + 1;
        self.current = Some(
            Observation {
                candidate: ConfigCandidate { generation: self.observed, contents: bytes },
                since: now,
                retry_at: now,
                attempts: 0,
                rejected: false,
            },
        );
    }

    /// Takes note that the file cannot be read.
    pub fn unavailable(&mut self)
        requires
            old(self)@.valid(),
            old(self)@.observed < u64::MAX,
        ensures
            final(self)@.valid(),
            final(self)@ == old(self)@.after_unavailable(),
    {
        if self.current.is_some() {
            self.current = None;
            self.observed = self.observed + 1;
        }
    }

    /// The version that is due for an attempt; it is in flight until it is completed.
    pub fn next(&mut self, now: u64) -> (r: Option<ConfigCandidate>)
        requires
            old(self)@.valid(),
        ensures
            final(self)@.valid(),
            final(self)@ == old(self)@.after_next(now),
            r is Some == old(self)@.due(now),
            r is Some ==> (r->0.generation, r->0.contents@) == (
                old(self)@.current->0.generation,
                old(self)@.current->0.contents,
            ),
    {
        if self.in_flight.is_some() {
            return None;
        }
        let (generation, contents, since, retry_at, attempts) = match &self.current {
            None => {
                return None;
            },
            Some(current) => {
                if current.candidate.contents.len() == 0 || same_bytes(
                    current.candidate.contents.as_slice(),
                    self.applied.as_slice(),
                ) || current.rejected || current.attempts > self.retry_limit {
                    return None;
                }
                let elapsed: u64 = if now >= current.since {
                    now - current.since
                } else {
                    0
                };
                if elapsed < self.delay || now < current.retry_at {
                    return None;
                }
                (
                    current.candidate.generation,
                    copy_bytes(&current.candidate.contents),
                    current.since,
                    current.retry_at,
                    current.attempts,
                )
            },
        };
        let flying = copy_bytes(&contents);
        let handed = copy_bytes(&contents);
        self.current = Some(
            Observation {
                candidate: ConfigCandidate { generation, contents },
                since,
                retry_at,
                attempts: attempts + 1,
                rejected: false,
            },
        );
        self.in_flight = Some(ConfigCandidate { generation, contents: flying });
        Some(ConfigCandidate { generation, contents: handed })
    }

    /// Takes note that a version is valid.
    pub fn validate(&mut self, generation: u64)
        ensures
            final(self)@ == (Versions { validated: generation, ..old(self)@ }),
    {
        self.validated = generation;
    }

    /// Takes note of the outcome of the attempt in flight; other outcomes are ignored.
    pub fn complete(&mut self, generation: u64, applied: bool, retryable: bool, now: u64)
        requires
            old(self)@.valid(),
        ensures
            final(self)@.valid(),
            final(self)@ == old(self)@.after_complete(generation, applied, retryable, now),
    {
        match &self.in_flight {
            Some(candidate) => {
                if candidate.generation != generation {
                    return ;
                }
            },
            None => {
                return ;
            },
        }
        if applied {
            if let Some(candidate) = &self.in_flight {
                self.applied = copy_bytes(&candidate.contents);
            }
            self.applied_generation = generation;
            self.in_flight = None;
            return ;
        }
        self.in_flight = None;
        let changed = match &self.current {
            None => None,
            Some(current) => {
                if current.candidate.generation != generation {
                    None
                } else {
                    let wait: u64 = backoff_ms(self.retry_delay, current.attempts);
                    Some(
                        Observation {
                            candidate: ConfigCandidate {
                                generation,
                                contents: copy_bytes(&current.candidate.contents),
                            },
                            since: current.since,
                            retry_at: now.saturating_add(wait),
                            attempts: current.attempts,
                            rejected: !retryable,
                        },
                    )
                }
            },
        };
        if changed.is_some() {
            self.current = changed;
        }
    }
}

// ---------------------------------------------------------------------------
// Laws of the tracker

/// Only the acknowledgement of the version in flight changes what is applied, and it applies the
/// bytes of exactly that version.
pub proof fn only_acknowledgement_applies(
    state: Versions,
    bytes: Seq<u8>,
    generation: u64,
    applied: bool,
    retryable: bool,
    now: u64,
)
    ensures
        state.after_observe(bytes, now).applied == state.applied,
        state.after_unavailable().applied == state.applied,
        state.after_next(now).applied == state.applied,
        ({
            let after = state.after_complete(generation, applied, retryable, now);
            if applied && state.in_flight is Some && (state.in_flight->0).0 == generation {
                after.applied == (state.in_flight->0).1 && after.applied_generation == generation
            } else {
                after.applied == state.applied && after.applied_generation
                    == state.applied_generation
            }
        }),
{
}

/// The completion of a version that is not in flight changes nothing.
pub proof fn stale_completion_is_ignored(
    state: Versions,
    generation: u64,
    applied: bool,
    retryable: bool,
    now: u64,
)
    requires
        state.in_flight is None || (state.in_flight->0).0 != generation,
    ensures
        state.after_complete(generation, applied, retryable, now) == state,
{
}

/// One version at a time is in flight: none is due before the last one is completed.
pub proof fn one_version_in_flight(state: Versions, now: u64, other: u64)
    requires
        state.due(now),
    ensures
        !state.after_next(now).due(other),
{
}

/// A version that was tried once more than its retry budget is not due again, at whatever time.
pub proof fn retries_are_bounded(state: Versions, now: u64)
    requires
        state.valid(),
        state.current is Some,
        state.current->0.attempts > state.retry_limit,
    ensures
        !state.due(now),
{
}

/// A refused version and an empty file are not due, at whatever time.
pub proof fn refused_and_blank_versions_wait(state: Versions, now: u64)
    requires
        state.current is Some,
        state.current->0.rejected || state.current->0.contents.len() == 0,
    ensures
        !state.due(now),
{
}

/// A later save replaces an earlier one that was not tried yet: the later bytes are due alone.
pub proof fn saves_coalesce(state: Versions, first: Seq<u8>, last: Seq<u8>, then: u64, now: u64)
    requires
        state.valid(),
        state.observed < u64::MAX - 1,
        state.current is None,
        first != last,
        first != state.applied,
    ensures
        ({
            let after = state.after_observe(first, then).after_observe(last, now);
            after.current is Some && after.current->0.contents == last
                && after.current->0.generation == state.observed + 2 && after.current->0.since == now
        }),
{
}

/// New bytes of the file are due once they have stayed the same for the delay: not before, and not
/// while another version is in flight. An empty file and the version that is applied never are.
pub proof fn new_version_is_due_after_the_delay(
    state: Versions,
    bytes: Seq<u8>,
    then: u64,
    now: u64,
)
    requires
        state.valid(),
        state.observed < u64::MAX,
        state.current is None || (state.current->0).contents != bytes,
        state.current is Some || state.applied != bytes,
        then <= now,
    ensures
        ({
            let after = state.after_observe(bytes, then);
            &&& after.due(now) <==> state.in_flight is None && bytes.len() > 0 && bytes
                != state.applied && now - then >= state.delay
            &&& after.observed == state.observed + 1
            &&& after.current matches Some(seen) && seen.generation == state.observed + 1
                && seen.contents == bytes && seen.attempts == 0
            &&& after.in_flight == state.in_flight
            &&& after.validated == state.validated && after.applied_generation
                == state.applied_generation
        }),
{
}

/// Reading the same bytes again changes nothing: the wait goes on, and a refused version stays
/// refused.
pub proof fn same_bytes_change_nothing(state: Versions, bytes: Seq<u8>, then: u64, now: u64)
    requires
        state.observed < u64::MAX,
    ensures
        state.after_observe(bytes, then).after_observe(bytes, now) == state.after_observe(
            bytes,
            then,
        ),
        state.current is None && bytes == state.applied ==> state.after_observe(bytes, now) == state,
{
}

/// A file that cannot be read is forgotten: its version is not tried any more, and the same bytes
/// count as new when they are back.
pub proof fn unreadable_version_is_forgotten(state: Versions, bytes: Seq<u8>, then: u64, now: u64)
    requires
        state.valid(),
        state.observed < u64::MAX - 1,
        bytes != state.applied,
    ensures
        !state.after_unavailable().due(now),
        state.current is None ==> state.after_unavailable() == state,
        state.after_unavailable().after_observe(bytes, then).current matches Some(seen)
            && seen.contents == bytes && seen.since == then && seen.attempts == 0 && !seen.rejected,
        state.after_unavailable().in_flight == state.in_flight,
{
}

/// A version that is due is handed out with its bytes and its generation, and counts as one
/// attempt.
pub proof fn due_version_is_handed_out(state: Versions, now: u64)
    requires
        state.valid(),
    ensures
        !state.due(now) ==> state.after_next(now) == state,
        state.due(now) ==> {
            let after = state.after_next(now);
            let seen = state.current->0;
            &&& after.in_flight == Some((seen.generation, seen.contents))
            &&& after.current == Some(Seen { attempts: (seen.attempts + 1) as u32, ..seen })
            &&& after.observed == state.observed
            &&& after.validated == state.validated
        },
{
}

/// A version that failed is tried again after the delay of retries, which doubles with each attempt
/// up to thirty-two fold and up to thirty seconds, within its number of retries. One that is
/// refused is not.
pub proof fn failed_version_is_tried_again(
    state: Versions,
    failed: u64,
    now: u64,
    retryable: bool,
)
    requires
        state.valid(),
        state.current is Some,
        state.current->0.contents.len() > 0,
        state.current->0.contents != state.applied,
        !state.current->0.rejected,
        state.current->0.attempts >= 1,
        state.in_flight == Some((state.current->0.generation, state.current->0.contents)),
        now >= state.current->0.since + state.delay,
        failed + 30000 <= u64::MAX,
    ensures
        ({
            let seen = state.current->0;
            let after = state.after_complete(seen.generation, false, retryable, failed);
            let wait = state.retry_delay * if seen.attempts == 1 {
                1int
            } else if seen.attempts == 2 {
                2
            } else if seen.attempts == 3 {
                4
            } else if seen.attempts == 4 {
                8
            } else if seen.attempts == 5 {
                16
            } else {
                32
            };
            &&& after.due(now) <==> retryable && seen.attempts <= state.retry_limit && now >= failed
                + (if wait <= 30000 {
                wait
            } else {
                30000
            })
            &&& after.in_flight is None
            &&& after.applied == state.applied
        }),
{
}

/// A version that was applied is the one in effect and is not tried again; a newer one that was
/// seen meanwhile still is.
pub proof fn applied_version_is_in_effect(state: Versions, now: u64, later: u64)
    requires
        state.valid(),
        state.in_flight is Some,
    ensures
        ({
            let (generation, contents) = state.in_flight->0;
            let after = state.after_complete(generation, true, true, now);
            &&& after.applied == contents
            &&& after.applied_generation == generation
            &&& after.in_flight is None
            &&& after.current == state.current
            &&& state.current is Some && (state.current->0).contents == contents ==> !after.due(
                later,
            )
        }),
{
}

}
