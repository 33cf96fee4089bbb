//! The log file: where it may be, how it is bounded, and what becomes of failures.

use vstd::prelude::*;

use crate::config::file_identity::FileIdentity;
use crate::text::{chars_of, equal_ignoring_case, same_ignoring_case};

pub mod rotation;
pub mod worker;

verus! {

/// The first failure to write a log record. It can be taken once; later failures are not
/// recorded, so that reporting a failure cannot lead to another report.
#[derive(Debug, Clone, Copy, PartialEq, Eq)]
pub struct LogFailure {
    pub recorded: bool,
    pub pending: Option<i32>,
}

impl LogFailure {
    pub fn new() -> (r: Self)
        ensures
            r == (LogFailure { recorded: false, pending: None }),
    {
        LogFailure { recorded: false, pending: None }
    }

    /// Records a failure with the code of the system, where it has one.
    pub fn record(&mut self, code: Option<i32>)
        ensures
            *final(self) == (if old(self).recorded {
                *old(self)
            } else {
                LogFailure {
                    recorded: true,
                    pending: Some(
                        match code {
                            Some(code) => code,
                            None => 0,
                        },
                    ),
                }
            }),
            *final(self) == old(self).failed(code),
    {
        if !self.recorded {
            self.recorded = true;
            self.pending = Some(
                match code {
                    Some(code) => code,
                    None => 0,
                },
            );
        }
    }

    /// Takes the failure that was not taken yet.
    pub fn take(&mut self) -> (r: Option<i32>)
        ensures
            r == old(self).pending,
            *final(self) == (LogFailure { pending: None, ..*old(self) }),
    {
        let taken = self.pending;
        self.pending = None;
        taken
    }

    /// The state after a failure.
    pub open spec fn failed(self, code: Option<i32>) -> LogFailure {
        if self.recorded {
            self
        } else {
            LogFailure {
                recorded: true,
                pending: Some(
                    match code {
                        Some(code) => code,
                        None => 0,
                    },
                ),
            }
        }
    }

    /// The state after a number of failures.
    pub open spec fn failed_often(self, codes: Seq<Option<i32>>) -> LogFailure
        decreases codes.len(),
    {
        if codes.len() == 0 {
            self
        } else {
            self.failed_often(codes.drop_last()).failed(codes.last())
        }
    }
}

/// After a failure was taken nothing is ever reported again, whatever fails.
pub proof fn failure_is_reported_once(failure: LogFailure, codes: Seq<Option<i32>>)
    requires
        failure.recorded,
        failure.pending is None,
    ensures
        failure.failed_often(codes).pending is None,
        failure.failed_often(codes) == failure,
    decreases codes.len(),
{
    if codes.len() > 0 {
        failure_is_reported_once(failure, codes.drop_last());
    }
}

/// Whether the log and the configuration are one file.
pub open spec fn is_alias(
    ini_path: Seq<char>,
    log_path: Seq<char>,
    log: Option<FileIdentity>,
    ini: Option<FileIdentity>,
) -> bool {
    same_ignoring_case(ini_path, log_path) || (log is Some && ini is Some && (log->0).same(ini->0))
}

/// Whether a log may be written to a place: it must not be the configuration, neither by its path
/// nor, where both files exist, by its identity.
pub fn validate_destination(
    ini_path: &str,
    log_path: &str,
    log: Option<FileIdentity>,
    ini: Option<FileIdentity>,
) -> (r: bool)
    ensures
        r == !is_alias(ini_path@, log_path@, log, ini),
{
    let chars = chars_of(ini_path);
    if equal_ignoring_case(chars.as_slice(), log_path) {
        return false;
    }
    match (log, ini) {
        (Some(log), Some(ini)) => !log.is_same(&ini),
        _ => true,
    }
}

/// Whether a record may be written: the log must not have become the configuration.
pub fn reject_alias(log: &FileIdentity, ini: &FileIdentity) -> (r: bool)
    ensures
        r == log.same(*ini),
{
    log.is_same(ini)
}

/// Of several failures the first is the one that is reported, with its code or zero.
pub proof fn first_failure_counts(failure: LogFailure, first: Option<i32>, codes: Seq<Option<i32>>)
    requires
        !failure.recorded,
    ensures
        failure.failed(first).failed_often(codes).pending == Some(
            if first is Some {
                first->0
            } else {
                0
            },
        ),
        failure.failed(first).failed_often(codes).recorded,
    decreases codes.len(),
{
    if codes.len() > 0 {
        first_failure_counts(failure, first, codes.drop_last());
    }
}

/// The log is the configuration where their paths differ in case at most, and where both files have
/// the same identity.
pub proof fn aliases_of_the_configuration(
    ini_path: Seq<char>,
    log_path: Seq<char>,
    log: FileIdentity,
    ini: FileIdentity,
)
    ensures
        is_alias(ini_path, ini_path, None, None),
        same_ignoring_case(ini_path, log_path) ==> is_alias(ini_path, log_path, Some(log), Some(ini)),
        log.volume == ini.volume && log.id@ == ini.id@ ==> is_alias(
            ini_path,
            log_path,
            Some(log),
            Some(ini),
        ),
        !same_ignoring_case(ini_path, log_path) && !(log.volume == ini.volume && log.id@ == ini.id@)
            ==> !is_alias(ini_path, log_path, Some(log), Some(ini)),
        !same_ignoring_case(ini_path, log_path) ==> !is_alias(ini_path, log_path, None, Some(ini))
            && !is_alias(ini_path, log_path, Some(log), None),
{
}

}
