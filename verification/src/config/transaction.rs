//! The steps by which a configuration file is replaced without ever losing its contents.
//!
//! The original is moved aside by its own handle, then the new file is published without
//! replacing anything. A file that someone else created at the place of the configuration wins;
//! the original then stays in the recovery file, and no later save or start invents defaults.

use vstd::prelude::*;

use crate::config::storage::check_size;
use crate::text::{decimal, decimal_text, push_text};

verus! {

/// How often a name for the temporary file is tried.
pub const TEMPORARY_ATTEMPTS: u32 = 16;

/// A point of a save at which an observer is told about it.
#[derive(Debug, Clone, Copy, PartialEq, Eq, Structural)]
pub enum CommitStage {
    /// An empty temporary file is reserved.
    Prepared,
    /// The original is held and the new contents are written.
    Checked,
    /// The original is the recovery file.
    OriginalMoved,
    /// The new file is in place.
    Published,
}

/// The next step of a save.
#[derive(Debug, Clone, Copy, PartialEq, Eq, Structural)]
pub enum CommitStep {
    /// Look whether a recovery file exists.
    CheckRecovery,
    /// Create an empty temporary file under a new name.
    CreateTemporary,
    /// Tell the observer.
    Announce(CommitStage),
    /// Open the original so that nobody else can change it, and read it.
    HoldOriginal,
    /// Take the metadata of the original.
    CaptureMetadata,
    /// Write the new contents into the temporary file.
    WriteTemporary,
    /// Give the metadata of the original to the temporary file.
    ApplyMetadata,
    /// Bring the temporary file to the disk.
    SyncTemporary,
    /// Look once more whether a recovery file exists.
    RecheckRecovery,
    /// Rename the original to the recovery file, which must not exist.
    MoveOriginal,
    /// Rename the temporary file to the configuration, which must not exist.
    PublishTemporary,
    /// Rename the recovery file back to the configuration, which must not exist.
    RestoreOriginal,
    /// Delete the recovery file.
    DeleteRecovery,
    /// The save is over.
    Finished(CommitResult),
}

/// How a save ended.
#[derive(Debug, Clone, Copy, PartialEq, Eq, Structural)]
pub enum CommitResult {
    Saved,
    /// The new contents are too large.
    TooLarge,
    /// A recovery file exists.
    RecoveryPresent,
    /// It is unknown whether a recovery file exists.
    RecoveryUnknown,
    /// The temporary file could not be created.
    NoTemporary,
    /// Every name for a temporary file was taken.
    NoUniqueTemporary,
    /// The observer stopped the save at this stage.
    Stopped(CommitStage),
    /// The original could not be held.
    OriginalInUse,
    /// The original is read-only.
    ReadOnly,
    /// The original has changed.
    Changed,
    /// The metadata of the original cannot be kept.
    Metadata,
    /// The temporary file could not be written.
    NotWritten,
    /// The original could not be moved aside.
    NotMoved,
    /// The new file could not be published; the original is back.
    Restored,
    /// The new file could not be published; the original stays in the recovery file.
    KeptInRecovery,
    /// The new file is in place, but the recovery file could not be deleted.
    RecoveryLeft,
    /// The new file could not be published; there was no original.
    NotPublished,
}

/// What came of a step.
#[derive(Debug, Clone, Copy, PartialEq, Eq, Structural)]
pub enum CommitEvent {
    /// The step succeeded; of a look for the recovery file, there is none.
    Done,
    /// The file of the step exists already.
    Exists,
    /// The step failed.
    Failed,
    /// The original is held.
    Held { read_only: bool, unchanged: bool },
}

/// A save in progress.
#[derive(Debug, Clone, Copy, PartialEq, Eq, Structural)]
pub struct Commit {
    pub step: CommitStep,
    /// Whether there is an original to replace.
    pub replaces: bool,
    /// How many names for the temporary file were tried.
    pub attempts: u32,
    /// Whether the temporary file exists under its own name; it is deleted at the end.
    pub temporary: bool,
    /// Whether the original is held.
    pub held: bool,
    /// Whether the original is the recovery file.
    pub moved: bool,
    /// Whether the new file is in place.
    pub published: bool,
}

impl Commit {
    pub open spec fn at(self, step: CommitStep) -> Commit {
        Commit { step, ..self }
    }

    pub open spec fn ends(self, result: CommitResult) -> Commit {
        Commit { step: CommitStep::Finished(result), ..self }
    }

    /// The first state of a save.
    pub open spec fn first(replaces: bool, too_large: bool) -> Commit {
        Commit {
            step: if too_large {
                CommitStep::Finished(CommitResult::TooLarge)
            } else {
                CommitStep::CheckRecovery
            },
            replaces,
            attempts: 0,
            temporary: false,
            held: false,
            moved: false,
            published: false,
        }
    }

    /// The state after a step with its event.
    pub open spec fn after(self, event: CommitEvent) -> Commit {
        let done = event == CommitEvent::Done;
        match self.step {
            CommitStep::CheckRecovery => match event {
                CommitEvent::Done => self.at(CommitStep::CreateTemporary),
                CommitEvent::Exists => self.ends(CommitResult::RecoveryPresent),
                _ => self.ends(CommitResult::RecoveryUnknown),
            },
            CommitStep::CreateTemporary => match event {
                CommitEvent::Done => Commit {
                    temporary: true,
                    step: CommitStep::Announce(CommitStage::Prepared),
                    ..self
                },
                CommitEvent::Exists => if self.attempts + 1 < TEMPORARY_ATTEMPTS {
                    Commit { attempts: (self.attempts + 1) as u32, ..self }
                } else {
                    self.ends(CommitResult::NoUniqueTemporary)
                },
                _ => self.ends(CommitResult::NoTemporary),
            },
            CommitStep::Announce(CommitStage::Prepared) => if !done {
                self.ends(CommitResult::Stopped(CommitStage::Prepared))
            } else if self.replaces {
                self.at(CommitStep::HoldOriginal)
            } else {
                self.at(CommitStep::WriteTemporary)
            },
            CommitStep::HoldOriginal => match event {
                CommitEvent::Held { read_only, unchanged } => {
                    let held = Commit { held: true, ..self };
                    if read_only {
                        held.ends(CommitResult::ReadOnly)
                    } else if !unchanged {
                        held.ends(CommitResult::Changed)
                    } else {
                        held.at(CommitStep::CaptureMetadata)
                    }
                },
                _ => self.ends(CommitResult::OriginalInUse),
            },
            CommitStep::CaptureMetadata => if done {
                self.at(CommitStep::WriteTemporary)
            } else {
                self.ends(CommitResult::Metadata)
            },
            CommitStep::WriteTemporary => if !done {
                self.ends(CommitResult::NotWritten)
            } else if self.replaces {
                self.at(CommitStep::ApplyMetadata)
            } else {
                self.at(CommitStep::SyncTemporary)
            },
            CommitStep::ApplyMetadata => if done {
                self.at(CommitStep::SyncTemporary)
            } else {
                self.ends(CommitResult::Metadata)
            },
            CommitStep::SyncTemporary => if !done {
                self.ends(CommitResult::NotWritten)
            } else if self.replaces {
                self.at(CommitStep::Announce(CommitStage::Checked))
            } else {
                self.at(CommitStep::RecheckRecovery)
            },
            CommitStep::RecheckRecovery => match event {
                CommitEvent::Done => self.at(CommitStep::PublishTemporary),
                CommitEvent::Exists => self.ends(CommitResult::RecoveryPresent),
                _ => self.ends(CommitResult::RecoveryUnknown),
            },
            CommitStep::Announce(CommitStage::Checked) => if done {
                self.at(CommitStep::MoveOriginal)
            } else {
                self.ends(CommitResult::Stopped(CommitStage::Checked))
            },
            CommitStep::MoveOriginal => if done {
                Commit {
                    moved: true,
                    step: CommitStep::Announce(CommitStage::OriginalMoved),
                    ..self
                }
            } else {
                self.ends(CommitResult::NotMoved)
            },
            CommitStep::Announce(CommitStage::OriginalMoved) => if done {
                self.at(CommitStep::PublishTemporary)
            } else {
                self.at(CommitStep::RestoreOriginal)
            },
            CommitStep::PublishTemporary => if done {
                Commit {
                    temporary: false,
                    published: true,
                    step: CommitStep::Announce(CommitStage::Published),
                    ..self
                }
            } else if self.replaces {
                self.at(CommitStep::RestoreOriginal)
            } else {
                self.ends(CommitResult::NotPublished)
            },
            CommitStep::RestoreOriginal => if done {
                Commit { moved: false, ..self.ends(CommitResult::Restored) }
            } else {
                self.ends(CommitResult::KeptInRecovery)
            },
            CommitStep::Announce(CommitStage::Published) => if !done {
                self.ends(CommitResult::Stopped(CommitStage::Published))
            } else if self.replaces {
                self.at(CommitStep::DeleteRecovery)
            } else {
                self.ends(CommitResult::Saved)
            },
            CommitStep::DeleteRecovery => if done {
                Commit { moved: false, ..self.ends(CommitResult::Saved) }
            } else {
                self.ends(CommitResult::RecoveryLeft)
            },
            CommitStep::Finished(_) => self,
        }
    }

    /// Begins a save of `bytes`; `replaces` says whether there is an original.
    pub fn begin(replaces: bool, bytes: &[u8]) -> (r: Commit)
        ensures
            r == Commit::first(replaces, bytes@.len() > crate::config::storage::MAX_INI_BYTES),
    {
        let step = match check_size(bytes) {
            Ok(_) => CommitStep::CheckRecovery,
            Err(_) => CommitStep::Finished(CommitResult::TooLarge),
        };
        Commit {
            step,
            replaces,
            attempts: 0,
            temporary: false,
            held: false,
            moved: false,
            published: false,
        }
    }

    /// Takes what came of the step; the next one is then in `step`.
    pub fn advance(&mut self, event: CommitEvent)
        requires
            old(self).attempts < TEMPORARY_ATTEMPTS,
        ensures
            *final(self) == old(self).after(event),
            final(self).attempts < TEMPORARY_ATTEMPTS,
    {
        let done = event == CommitEvent::Done;
        let step = match self.step {
            CommitStep::CheckRecovery => match event {
                CommitEvent::Done => CommitStep::CreateTemporary,
                CommitEvent::Exists => CommitStep::Finished(CommitResult::RecoveryPresent),
                _ => CommitStep::Finished(CommitResult::RecoveryUnknown),
            },
            CommitStep::CreateTemporary => match event {
                CommitEvent::Done => {
                    self.temporary = true;
                    CommitStep::Announce(CommitStage::Prepared)
                },
                CommitEvent::Exists => if self.attempts + 1 < TEMPORARY_ATTEMPTS {
                    self.attempts = self.attempts + 1;
                    CommitStep::CreateTemporary
                } else {
                    CommitStep::Finished(CommitResult::NoUniqueTemporary)
                },
                _ => CommitStep::Finished(CommitResult::NoTemporary),
            },
            CommitStep::Announce(CommitStage::Prepared) => if !done {
                CommitStep::Finished(CommitResult::Stopped(CommitStage::Prepared))
            } else if self.replaces {
                CommitStep::HoldOriginal
            } else {
                CommitStep::WriteTemporary
            },
            CommitStep::HoldOriginal => match event {
                CommitEvent::Held { read_only, unchanged } => {
                    self.held = true;
                    if read_only {
                        CommitStep::Finished(CommitResult::ReadOnly)
                    } else if !unchanged {
                        CommitStep::Finished(CommitResult::Changed)
                    } else {
                        CommitStep::CaptureMetadata
                    }
                },
                _ => CommitStep::Finished(CommitResult::OriginalInUse),
            },
            CommitStep::CaptureMetadata => if done {
                CommitStep::WriteTemporary
            } else {
                CommitStep::Finished(CommitResult::Metadata)
            },
            CommitStep::WriteTemporary => if !done {
                CommitStep::Finished(CommitResult::NotWritten)
            } else if self.replaces {
                CommitStep::ApplyMetadata
            } else {
                CommitStep::SyncTemporary
            },
            CommitStep::ApplyMetadata => if done {
                CommitStep::SyncTemporary
            } else {
                CommitStep::Finished(CommitResult::Metadata)
            },
            CommitStep::SyncTemporary => if !done {
                CommitStep::Finished(CommitResult::NotWritten)
            } else if self.replaces {
                CommitStep::Announce(CommitStage::Checked)
            } else {
                CommitStep::RecheckRecovery
            },
            CommitStep::RecheckRecovery => match event {
                CommitEvent::Done => CommitStep::PublishTemporary,
                CommitEvent::Exists => CommitStep::Finished(CommitResult::RecoveryPresent),
                _ => CommitStep::Finished(CommitResult::RecoveryUnknown),
            },
            CommitStep::Announce(CommitStage::Checked) => if done {
                CommitStep::MoveOriginal
            } else {
                CommitStep::Finished(CommitResult::Stopped(CommitStage::Checked))
            },
            CommitStep::MoveOriginal => if done {
                self.moved = true;
                CommitStep::Announce(CommitStage::OriginalMoved)
            } else {
                CommitStep::Finished(CommitResult::NotMoved)
            },
            CommitStep::Announce(CommitStage::OriginalMoved) => if done {
                CommitStep::PublishTemporary
            } else {
                CommitStep::RestoreOriginal
            },
            CommitStep::PublishTemporary => if done {
                self.temporary = false;
                self.published = true;
                CommitStep::Announce(CommitStage::Published)
            } else if self.replaces {
                CommitStep::RestoreOriginal
            } else {
                CommitStep::Finished(CommitResult::NotPublished)
            },
            CommitStep::RestoreOriginal => if done {
                self.moved = false;
                CommitStep::Finished(CommitResult::Restored)
            } else {
                CommitStep::Finished(CommitResult::KeptInRecovery)
            },
            CommitStep::Announce(CommitStage::Published) => if !done {
                CommitStep::Finished(CommitResult::Stopped(CommitStage::Published))
            } else if self.replaces {
                CommitStep::DeleteRecovery
            } else {
                CommitStep::Finished(CommitResult::Saved)
            },
            CommitStep::DeleteRecovery => if done {
                self.moved = false;
                CommitStep::Finished(CommitResult::Saved)
            } else {
                CommitStep::Finished(CommitResult::RecoveryLeft)
            },
            CommitStep::Finished(result) => CommitStep::Finished(result),
        };
        self.step = step;
    }
}

/// The event of a held original: whether it is read-only, and whether it still holds the bytes
/// that the save started from.
pub fn original_held(read_only: bool, contents: &[u8], expected: &[u8]) -> (r: CommitEvent)
    ensures
        r == (CommitEvent::Held { read_only, unchanged: contents@ == expected@ }),
{
    if contents.len() != expected.len() {
        return CommitEvent::Held { read_only, unchanged: false };
    }
    for i in 0..contents.len()
        invariant
            contents@.len() == expected@.len(),
            forall|k: int| 0 <= k < i ==> #[trigger] contents@[k] == expected@[k],
    {
        if contents[i] != expected[i] {
            return CommitEvent::Held { read_only, unchanged: false };
        }
    }
    assert(contents@ =~= expected@);
    CommitEvent::Held { read_only, unchanged: true }
}

/// The name of the recovery file of a configuration.
pub open spec fn recovery(name: Seq<char>) -> Seq<char> {
    "."@ + name + ".recovery"@
}

/// The name of the recovery file of a configuration.
pub fn recovery_name(name: &str) -> (r: String)
    ensures
        r@ == recovery(name@),
{
    let mut r = ".".to_owned();
    push_text(&mut r, name);
    push_text(&mut r, ".recovery");
    r
}

/// The name of a temporary file of a configuration.
pub fn temporary_name(name: &str, process: u32, sequence: u64) -> (r: String)
    ensures
        r@ == "."@ + name@ + "."@ + decimal(process as nat) + "."@ + decimal(sequence as nat)
            + ".tmp"@,
{
    let mut r = ".".to_owned();
    push_text(&mut r, name);
    push_text(&mut r, ".");
    push_text(&mut r, decimal_text(process as u64).as_str());
    push_text(&mut r, ".");
    push_text(&mut r, decimal_text(sequence).as_str());
    push_text(&mut r, ".tmp");
    r
}

// ---------------------------------------------------------------------------
// What a save does to the files

/// What a file holds.
pub enum Holding {
    /// The contents from before the save.
    Original,
    /// The contents of the save.
    New,
    /// Something that another program wrote.
    Other,
}

/// The files that a save deals with, beside the temporary file.
pub struct Disk {
    pub target: Option<Holding>,
    pub recovery: Option<Holding>,
}

/// What the file system does in a step that came out with the event. A rename succeeds only where
/// nothing has the new name.
pub open spec fn performed(commit: Commit, event: CommitEvent, before: Disk, after: Disk) -> bool {
    let done = event == CommitEvent::Done;
    match commit.step {
        CommitStep::CheckRecovery | CommitStep::RecheckRecovery => after == before && (done
            ==> before.recovery is None) && (event == CommitEvent::Exists ==> before.recovery is Some),
        CommitStep::HoldOriginal => after == before && (event matches CommitEvent::Held {
            unchanged,
            ..
        } ==> before.target is Some && (unchanged ==> before.target == Some(Holding::Original))),
        CommitStep::MoveOriginal => if done {
            before.recovery is None && after == (Disk { target: None, recovery: before.target })
        } else {
            after == before
        },
        CommitStep::PublishTemporary => if done {
            before.target is None && after == (Disk { target: Some(Holding::New), ..before })
        } else {
            after == before
        },
        CommitStep::RestoreOriginal => if done {
            before.target is None && after == (Disk { target: before.recovery, recovery: None })
        } else {
            after == before
        },
        CommitStep::DeleteRecovery => if done {
            after == (Disk { recovery: None, ..before })
        } else {
            after == before
        },
        _ => after == before,
    }
}

/// What other programs can do between two steps: they change neither the original while it is
/// held nor the new file, which is held as well.
pub open spec fn disturbed(commit: Commit, before: Disk, after: Disk) -> bool {
    &&& commit.held && before.target == Some(Holding::Original) ==> after.target == before.target
    &&& commit.held && before.recovery == Some(Holding::Original) ==> after.recovery
        == before.recovery
    &&& before.target == Some(Holding::New) ==> after.target == before.target
}

impl Commit {
    /// The original is not touched yet.
    pub open spec fn fresh(self) -> bool {
        !self.held && !self.moved && !self.published
    }

    /// The original is held in its place.
    pub open spec fn in_place(self, disk: Disk) -> bool {
        &&& self.held && !self.moved && !self.published
        &&& disk.target == Some(Holding::Original)
    }

    /// The original is held in the recovery file.
    pub open spec fn aside(self, disk: Disk) -> bool {
        &&& self.held && self.moved && !self.published
        &&& disk.recovery == Some(Holding::Original)
    }

    /// The new file is in place; the original, where there is one, is in the recovery file.
    pub open spec fn replaced(self, disk: Disk) -> bool {
        &&& self.published && self.moved == self.replaces && self.held == self.replaces
        &&& disk.target == Some(Holding::New)
        &&& self.moved ==> disk.recovery == Some(Holding::Original)
    }
}

/// Whether a state of a save goes with the files.
pub open spec fn consistent(commit: Commit, disk: Disk) -> bool {
    match commit.step {
        CommitStep::CheckRecovery
        | CommitStep::CreateTemporary
        | CommitStep::Announce(CommitStage::Prepared) => commit.fresh(),
        CommitStep::HoldOriginal => commit.replaces && commit.fresh(),
        CommitStep::CaptureMetadata
        | CommitStep::ApplyMetadata
        | CommitStep::Announce(CommitStage::Checked)
        | CommitStep::MoveOriginal => commit.replaces && commit.in_place(disk),
        CommitStep::WriteTemporary | CommitStep::SyncTemporary => if commit.replaces {
            commit.in_place(disk)
        } else {
            commit.fresh()
        },
        CommitStep::RecheckRecovery => !commit.replaces && commit.fresh(),
        CommitStep::Announce(CommitStage::OriginalMoved)
        | CommitStep::RestoreOriginal => commit.replaces && commit.aside(disk),
        CommitStep::PublishTemporary => if commit.replaces {
            commit.aside(disk)
        } else {
            commit.fresh()
        },
        CommitStep::Announce(CommitStage::Published) => commit.replaced(disk),
        CommitStep::DeleteRecovery => commit.replaces && commit.replaced(disk),
        CommitStep::Finished(result) => match result {
            CommitResult::Saved => commit.published && disk.target == Some(Holding::New),
            CommitResult::RecoveryLeft
            | CommitResult::Stopped(CommitStage::Published) => commit.replaced(disk),
            CommitResult::Restored | CommitResult::NotMoved => commit.in_place(disk),
            CommitResult::KeptInRecovery => commit.aside(disk),
            CommitResult::Changed | CommitResult::ReadOnly => commit.held,
            _ => commit.fresh() || commit.in_place(disk),
        },
    }
}

/// A save begins in a state that goes with any files.
pub proof fn save_begins_consistent(replaces: bool, too_large: bool, disk: Disk)
    ensures
        consistent(Commit::first(replaces, too_large), disk),
{
}

/// Every step, whatever comes of it and whatever other programs do meanwhile, leads to a state
/// that goes with the files again.
pub proof fn save_stays_consistent(
    commit: Commit,
    event: CommitEvent,
    start: Disk,
    before: Disk,
    after: Disk,
)
    requires
        consistent(commit, start),
        disturbed(commit, start, before),
        performed(commit, event, before, after),
    ensures
        consistent(commit.after(event), after),
{
}

/// From the moment the original is held and found unchanged its contents are in place or in the
/// recovery file, until the new file is in place.
pub proof fn original_is_never_lost(commit: Commit, disk: Disk)
    requires
        consistent(commit, disk),
        commit.held,
        commit.step != CommitStep::Finished(CommitResult::Changed),
        commit.step != CommitStep::Finished(CommitResult::ReadOnly),
        commit.replaces,
    ensures
        ({
            ||| disk.target == Some(Holding::Original)
            ||| disk.recovery == Some(Holding::Original)
            ||| disk.target == Some(Holding::New)
        }),
{
}

/// A step never replaces a file that another program put in place of the configuration.
pub proof fn other_files_are_never_replaced(
    commit: Commit,
    event: CommitEvent,
    before: Disk,
    after: Disk,
)
    requires
        consistent(commit, before),
        performed(commit, event, before, after),
        before.target == Some(Holding::Other),
    ensures
        after.target == before.target,
{
}

/// A save that finds a recovery file ends at once, and creates nothing.
pub proof fn recovery_file_stops_a_save(replaces: bool)
    ensures
        Commit::first(replaces, false).after(CommitEvent::Exists) == Commit::first(
            replaces,
            false,
        ).ends(CommitResult::RecoveryPresent),
        !Commit::first(replaces, false).after(CommitEvent::Exists).temporary,
{
}

/// A save is reported as done only when the new file is in place.
pub proof fn saved_means_published(commit: Commit, disk: Disk)
    requires
        consistent(commit, disk),
        commit.step == CommitStep::Finished(CommitResult::Saved),
    ensures
        disk.target == Some(Holding::New),
{
}

/// A finished save stays as it is, whatever event comes.
pub proof fn finished_save_stays(commit: Commit, event: CommitEvent)
    requires
        commit.step is Finished,
    ensures
        commit.after(event) == commit,
{
}

/// Each way in which a save ends has its cause, and comes of no other.
pub proof fn endings_have_their_causes(commit: Commit, event: CommitEvent)
    requires
        !(commit.step is Finished),
    ensures
        ({
            let step = commit.after(event).step;
            &&& step == CommitStep::Finished(CommitResult::RecoveryPresent) <==> (commit.step == CommitStep::CheckRecovery || commit.step == CommitStep::RecheckRecovery) && event == CommitEvent::Exists
            &&& step == CommitStep::Finished(CommitResult::RecoveryUnknown) <==> (commit.step == CommitStep::CheckRecovery || commit.step == CommitStep::RecheckRecovery) && event != CommitEvent::Done && event != CommitEvent::Exists
            &&& step == CommitStep::Finished(CommitResult::NoTemporary) <==> commit.step == CommitStep::CreateTemporary && event != CommitEvent::Done && event != CommitEvent::Exists
            &&& step == CommitStep::Finished(CommitResult::NoUniqueTemporary) <==> commit.step == CommitStep::CreateTemporary && event == CommitEvent::Exists && commit.attempts >= 15
            &&& step == CommitStep::Finished(CommitResult::Stopped(CommitStage::Prepared)) <==> commit.step == CommitStep::Announce(CommitStage::Prepared) && event != CommitEvent::Done
            &&& step == CommitStep::Finished(CommitResult::Stopped(CommitStage::Checked)) <==> commit.step == CommitStep::Announce(CommitStage::Checked) && event != CommitEvent::Done
            &&& step == CommitStep::Finished(CommitResult::Stopped(CommitStage::Published)) <==> commit.step == CommitStep::Announce(CommitStage::Published) && event != CommitEvent::Done
            &&& step == CommitStep::Finished(CommitResult::OriginalInUse) <==> commit.step == CommitStep::HoldOriginal && !(event is Held)
            &&& step == CommitStep::Finished(CommitResult::ReadOnly) <==> commit.step == CommitStep::HoldOriginal && event is Held && event->read_only
            &&& step == CommitStep::Finished(CommitResult::Changed) <==> commit.step == CommitStep::HoldOriginal && event is Held && !event->read_only && !event->unchanged
            &&& step == CommitStep::Finished(CommitResult::Metadata) <==> (commit.step == CommitStep::CaptureMetadata || commit.step == CommitStep::ApplyMetadata) && event != CommitEvent::Done
            &&& step == CommitStep::Finished(CommitResult::NotWritten) <==> (commit.step == CommitStep::WriteTemporary || commit.step == CommitStep::SyncTemporary) && event != CommitEvent::Done
            &&& step == CommitStep::Finished(CommitResult::NotMoved) <==> commit.step == CommitStep::MoveOriginal && event != CommitEvent::Done
            &&& step == CommitStep::Finished(CommitResult::NotPublished) <==> commit.step == CommitStep::PublishTemporary && event != CommitEvent::Done && !commit.replaces
            &&& step == CommitStep::Finished(CommitResult::Restored) <==> commit.step == CommitStep::RestoreOriginal && event == CommitEvent::Done
            &&& step == CommitStep::Finished(CommitResult::KeptInRecovery) <==> commit.step == CommitStep::RestoreOriginal && event != CommitEvent::Done
            &&& step == CommitStep::Finished(CommitResult::RecoveryLeft) <==> commit.step == CommitStep::DeleteRecovery && event != CommitEvent::Done
            &&& step == CommitStep::Finished(CommitResult::Saved) <==> event == CommitEvent::Done && (commit.step == CommitStep::DeleteRecovery || (commit.step == CommitStep::Announce(CommitStage::Published) && !commit.replaces))
            &&& step != CommitStep::Finished(CommitResult::TooLarge)
            &&& step != CommitStep::Finished(CommitResult::Stopped(CommitStage::OriginalMoved))
        }),
{
}

/// Each step comes after those that it rests on: nothing is written before the original is held and
/// found unchanged, the original is moved only when the new contents are on the disk, and the new
/// file is published only where no recovery file was seen or the original is safe in it.
pub proof fn steps_come_in_their_order(commit: Commit, event: CommitEvent)
    requires
        !(commit.step is Finished),
    ensures
        ({
            let step = commit.after(event).step;
            &&& step == CommitStep::CreateTemporary <==> (commit.step == CommitStep::CheckRecovery && event == CommitEvent::Done) || (commit.step == CommitStep::CreateTemporary && event == CommitEvent::Exists && commit.attempts < 15)
            &&& step == CommitStep::Announce(CommitStage::Prepared) <==> commit.step == CommitStep::CreateTemporary && event == CommitEvent::Done
            &&& step == CommitStep::HoldOriginal <==> commit.step == CommitStep::Announce(CommitStage::Prepared) && event == CommitEvent::Done && commit.replaces
            &&& step == CommitStep::CaptureMetadata <==> commit.step == CommitStep::HoldOriginal && event == (CommitEvent::Held { read_only: false, unchanged: true })
            &&& step == CommitStep::WriteTemporary <==> event == CommitEvent::Done && (commit.step == CommitStep::CaptureMetadata || (commit.step == CommitStep::Announce(CommitStage::Prepared) && !commit.replaces))
            &&& step == CommitStep::ApplyMetadata <==> commit.step == CommitStep::WriteTemporary && event == CommitEvent::Done && commit.replaces
            &&& step == CommitStep::SyncTemporary <==> event == CommitEvent::Done && (commit.step == CommitStep::ApplyMetadata || (commit.step == CommitStep::WriteTemporary && !commit.replaces))
            &&& step == CommitStep::Announce(CommitStage::Checked) <==> commit.step == CommitStep::SyncTemporary && event == CommitEvent::Done && commit.replaces
            &&& step == CommitStep::RecheckRecovery <==> commit.step == CommitStep::SyncTemporary && event == CommitEvent::Done && !commit.replaces
            &&& step == CommitStep::MoveOriginal <==> commit.step == CommitStep::Announce(CommitStage::Checked) && event == CommitEvent::Done
            &&& step == CommitStep::Announce(CommitStage::OriginalMoved) <==> commit.step == CommitStep::MoveOriginal && event == CommitEvent::Done
            &&& step == CommitStep::PublishTemporary <==> event == CommitEvent::Done && (commit.step == CommitStep::RecheckRecovery || commit.step == CommitStep::Announce(CommitStage::OriginalMoved))
            &&& step == CommitStep::RestoreOriginal <==> event != CommitEvent::Done && (commit.step == CommitStep::Announce(CommitStage::OriginalMoved) || (commit.step == CommitStep::PublishTemporary && commit.replaces))
            &&& step == CommitStep::Announce(CommitStage::Published) <==> commit.step == CommitStep::PublishTemporary && event == CommitEvent::Done
            &&& step == CommitStep::DeleteRecovery <==> commit.step == CommitStep::Announce(CommitStage::Published) && event == CommitEvent::Done && commit.replaces
            &&& step != CommitStep::CheckRecovery
        }),
        Commit::first(commit.replaces, false).step == CommitStep::CheckRecovery,
        Commit::first(commit.replaces, true).step == CommitStep::Finished(CommitResult::TooLarge),
{
}

/// What a save notes of the files follows the steps: the temporary file from its creation to its
/// publication, the original from its holding on, and the recovery file from the move of the
/// original until it is back or deleted. A name for the temporary file that is taken is counted.
pub proof fn save_keeps_track_of_the_files(commit: Commit, event: CommitEvent)
    requires
        !(commit.step is Finished),
    ensures
        ({
            let after = commit.after(event);
            let done = event == CommitEvent::Done;
            &&& after.replaces == commit.replaces
            &&& after.attempts == commit.attempts + (if commit.step == CommitStep::CreateTemporary
                && event == CommitEvent::Exists && commit.attempts < 15 {
                1int
            } else {
                0
            })
            &&& after.temporary == if done && commit.step == CommitStep::CreateTemporary {
                true
            } else if done && commit.step == CommitStep::PublishTemporary {
                false
            } else {
                commit.temporary
            }
            &&& after.published == (commit.published || (done && commit.step
                == CommitStep::PublishTemporary))
            &&& after.held == (commit.held || (event is Held && commit.step
                == CommitStep::HoldOriginal))
            &&& after.moved == if done && commit.step == CommitStep::MoveOriginal {
                true
            } else if done && (commit.step == CommitStep::RestoreOriginal || commit.step
                == CommitStep::DeleteRecovery) {
                false
            } else {
                commit.moved
            }
        }),
        ({
            let first = Commit::first(commit.replaces, false);
            &&& first.attempts == 0 && !first.temporary && !first.held && !first.moved
            &&& !first.published && first.replaces == commit.replaces
        }),
{
}

/// The recovery file stands beside the configuration: its name is that of the configuration
/// between a dot and `.recovery`, so that each configuration has its own.
pub proof fn recovery_files_are_told_apart(a: Seq<char>, b: Seq<char>)
    ensures
        recovery(a).len() == a.len() + 10,
        recovery(a)[0] == '.',
        recovery(a).subrange(1, a.len() as int + 1) == a,
        recovery(a).skip(a.len() as int + 1) == seq!['.', 'r', 'e', 'c', 'o', 'v', 'e', 'r', 'y'],
        recovery(a) == recovery(b) ==> a == b,
{
    reveal_strlit(".");
    reveal_strlit(".recovery");
    assert(recovery(a).subrange(1, a.len() as int + 1) =~= a);
    assert(recovery(b).subrange(1, b.len() as int + 1) =~= b);
    assert(recovery(a).skip(a.len() as int + 1) =~= seq!['.', 'r', 'e', 'c', 'o', 'v', 'e', 'r', 'y']);
}

}
