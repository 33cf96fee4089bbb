use window_switcher::config::file_identity::{
    pin_step, plain_name, rename_request, require_directory, require_regular, FileIdentity,
    PathPart, PinStep,
};
use window_switcher::config::logging::rotation::{
    archive_fate, archive_header, archive_name, archive_sequence, limits_valid, plan_rotation,
    record_step, Archive, ArchiveFate, RecordStep,
};
use window_switcher::config::logging::worker::{
    after_failure, limit_line, log_line, takes_record, WriteStep,
};
use window_switcher::config::logging::{reject_alias, validate_destination, LogFailure};
use window_switcher::config::metadata::{
    filled_words, require_single_stream, require_supported_attributes, security_words,
    BasicInformation, MetadataError, PreservedMetadata, ATTRIBUTE_ARCHIVE, ATTRIBUTE_HIDDEN,
};
use window_switcher::config::transaction::{
    original_held, recovery_name, temporary_name, Commit, CommitEvent, CommitResult, CommitStage,
    CommitStep,
};

const ATTRIBUTE_ENCRYPTED: u32 = 0x4000;
const ATTRIBUTE_COMPRESSED: u32 = 0x800;

#[test]
fn sink_errors_are_observable_once_without_recursive_logging() {
    let mut failure = LogFailure::new();
    assert_eq!(failure.take(), None);
    failure.record(std::io::Error::from_raw_os_error(32).raw_os_error());
    assert_eq!(failure.take(), Some(32));
    failure.record(std::io::Error::other("notification logging also failed").raw_os_error());
    assert_eq!(failure.take(), None);
}

#[test]
fn unsupported_attributes_are_rejected_without_downgrading_them() {
    for flags in [ATTRIBUTE_ENCRYPTED, ATTRIBUTE_COMPRESSED] {
        assert!(!require_supported_attributes(flags));
    }
    assert!(require_supported_attributes(
        ATTRIBUTE_HIDDEN | ATTRIBUTE_ARCHIVE
    ));
}

fn run(commit: &mut Commit, events: &[CommitEvent]) {
    for event in events {
        commit.advance(*event);
    }
}

const HELD: CommitEvent = CommitEvent::Held {
    read_only: false,
    unchanged: true,
};

#[test]
fn a_save_moves_the_original_aside_and_deletes_it_last() {
    let mut commit = Commit::begin(true, b"new");
    let expected = [
        CommitStep::CheckRecovery,
        CommitStep::CreateTemporary,
        CommitStep::Announce(CommitStage::Prepared),
        CommitStep::HoldOriginal,
        CommitStep::CaptureMetadata,
        CommitStep::WriteTemporary,
        CommitStep::ApplyMetadata,
        CommitStep::SyncTemporary,
        CommitStep::Announce(CommitStage::Checked),
        CommitStep::MoveOriginal,
        CommitStep::Announce(CommitStage::OriginalMoved),
        CommitStep::PublishTemporary,
        CommitStep::Announce(CommitStage::Published),
        CommitStep::DeleteRecovery,
    ];
    for step in expected {
        assert_eq!(commit.step, step);
        commit.advance(if step == CommitStep::HoldOriginal {
            HELD
        } else {
            CommitEvent::Done
        });
    }
    assert_eq!(commit.step, CommitStep::Finished(CommitResult::Saved));
    assert!(commit.published && !commit.temporary && !commit.moved);
}

#[test]
fn a_first_file_is_published_without_replacing_anything() {
    let mut commit = Commit::begin(false, b"new");
    run(&mut commit, &[CommitEvent::Done; 5]);
    assert_eq!(commit.step, CommitStep::RecheckRecovery);
    run(&mut commit, &[CommitEvent::Done]);
    assert_eq!(commit.step, CommitStep::PublishTemporary);
    let mut taken = commit;
    run(&mut taken, &[CommitEvent::Failed]);
    assert_eq!(taken.step, CommitStep::Finished(CommitResult::NotPublished));
    assert!(taken.temporary);
    run(&mut commit, &[CommitEvent::Done, CommitEvent::Done]);
    assert_eq!(commit.step, CommitStep::Finished(CommitResult::Saved));
}

#[test]
fn every_failure_of_a_save_has_its_result() {
    let done = CommitEvent::Done;
    let failed = CommitEvent::Failed;
    let cases: Vec<(Vec<CommitEvent>, CommitResult)> = vec![
        (vec![CommitEvent::Exists], CommitResult::RecoveryPresent),
        (vec![failed], CommitResult::RecoveryUnknown),
        (vec![done, failed], CommitResult::NoTemporary),
        (
            vec![done, done, failed],
            CommitResult::Stopped(CommitStage::Prepared),
        ),
        (vec![done, done, done, failed], CommitResult::OriginalInUse),
        (
            vec![done, done, done, original_held(true, b"a", b"a")],
            CommitResult::ReadOnly,
        ),
        (
            vec![done, done, done, original_held(false, b"a", b"b")],
            CommitResult::Changed,
        ),
        (
            vec![done, done, done, HELD, failed],
            CommitResult::Metadata,
        ),
        (
            vec![done, done, done, HELD, done, failed],
            CommitResult::NotWritten,
        ),
        (
            vec![done, done, done, HELD, done, done, failed],
            CommitResult::Metadata,
        ),
        (
            vec![done, done, done, HELD, done, done, done, failed],
            CommitResult::NotWritten,
        ),
        (
            vec![done, done, done, HELD, done, done, done, done, failed],
            CommitResult::Stopped(CommitStage::Checked),
        ),
        (
            vec![done, done, done, HELD, done, done, done, done, done, failed],
            CommitResult::NotMoved,
        ),
        (
            vec![
                done, done, done, HELD, done, done, done, done, done, done, failed, done,
            ],
            CommitResult::Restored,
        ),
        (
            vec![
                done, done, done, HELD, done, done, done, done, done, done, done, failed, failed,
            ],
            CommitResult::KeptInRecovery,
        ),
        (
            vec![
                done, done, done, HELD, done, done, done, done, done, done, done, done, failed,
            ],
            CommitResult::Stopped(CommitStage::Published),
        ),
        (
            vec![
                done, done, done, HELD, done, done, done, done, done, done, done, done, done,
                failed,
            ],
            CommitResult::RecoveryLeft,
        ),
    ];
    for (events, result) in cases {
        let mut commit = Commit::begin(true, b"new");
        run(&mut commit, &events);
        assert_eq!(commit.step, CommitStep::Finished(result));
    }
    let mut commit = Commit::begin(true, b"new");
    run(&mut commit, &[done]);
    run(&mut commit, &[CommitEvent::Exists; 16]);
    assert_eq!(
        commit.step,
        CommitStep::Finished(CommitResult::NoUniqueTemporary)
    );
    let large = vec![0u8; 1024 * 1024 + 1];
    assert_eq!(
        Commit::begin(true, &large).step,
        CommitStep::Finished(CommitResult::TooLarge)
    );
}

#[test]
fn files_beside_the_configuration_have_hidden_names() {
    assert_eq!(recovery_name("a.ini"), ".a.ini.recovery");
    assert_eq!(temporary_name("a.ini", 12, 34), ".a.ini.12.34.tmp");
}

fn identity(last: u8) -> FileIdentity {
    let mut id = [0u8; 16];
    id[15] = last;
    FileIdentity::of(0xabc, id).unwrap()
}

#[test]
fn identities_have_keys_and_zero_is_none() {
    assert!(FileIdentity::of(1, [0; 16]).is_none());
    assert_eq!(
        identity(0xf1).archive_key(),
        "0000000000000abc-000000000000000000000000000000f1"
    );
    assert!(identity(1).is_same(&identity(1)));
    assert!(!identity(1).is_same(&identity(2)));
    assert!(reject_alias(&identity(1), &identity(1)));
}

#[test]
fn only_plain_files_and_directories_are_used() {
    assert!(require_regular(true, 0x20, true));
    assert!(!require_regular(true, 0x420, true));
    assert!(!require_regular(false, 0x20, true));
    assert!(!require_regular(true, 0x20, false));
    assert!(require_directory(true, 0x10));
    assert!(!require_directory(true, 0x410));
    assert!(plain_name("a.ini"));
    assert!(!plain_name("a.ini:stream"));
    assert!(!plain_name("a\0.ini"));
    assert_eq!(pin_step(PathPart::Prefix), PinStep::Skip);
    assert_eq!(pin_step(PathPart::Parent), PinStep::Refuse);
    assert_eq!(pin_step(PathPart::Other), PinStep::Hold);
    let request = rename_request(10, 20, 24).unwrap();
    assert_eq!((request.name, request.total), (20, 42));
    assert_eq!(rename_request(0, 20, 24).unwrap().total, 24);
    assert!(rename_request(usize::MAX / 2, 20, 24).is_none());
}

#[test]
fn metadata_is_kept_or_the_save_stops() {
    let name: Vec<u16> = "::$DATA".encode_utf16().collect();
    assert_eq!(require_single_stream(0, 14, &name), None);
    assert_eq!(
        require_single_stream(8, 14, &name),
        Some(MetadataError::Streams)
    );
    assert_eq!(
        require_single_stream(0, 16, &name),
        Some(MetadataError::Streams)
    );
    let other: Vec<u16> = "::$DATB".encode_utf16().collect();
    assert_eq!(
        require_single_stream(0, 14, &other),
        Some(MetadataError::StreamType)
    );
    let basic = BasicInformation {
        created: 1,
        accessed: 2,
        attributes: 0x20,
    };
    assert_eq!(
        PreservedMetadata::capture(basic, 0x1, None, vec![1], &[1]).unwrap_err(),
        MetadataError::Attributes
    );
    assert_eq!(
        PreservedMetadata::capture(basic, 0x20, None, vec![1], &[2]).unwrap_err(),
        MetadataError::Security
    );
    assert_eq!(
        PreservedMetadata::capture(basic, 0x20, Some(MetadataError::Streams), vec![1], &[1])
            .unwrap_err(),
        MetadataError::Streams
    );
    let kept = PreservedMetadata::capture(basic, 0x20, None, vec![1], &[1]).unwrap();
    assert_eq!(kept.apply(0x20, &[1], &[1], None), Ok(basic));
    assert_eq!(
        kept.apply(0x22, &[1], &[1], None),
        Err(MetadataError::Changed)
    );
    assert_eq!(
        kept.apply(0x20, &[1], &[3], None),
        Err(MetadataError::Changed)
    );
    assert_eq!(security_words(0), None);
    assert_eq!(security_words(5), Some(2));
    assert_eq!(security_words(262145), None);
    assert_eq!(filled_words(8, 8), Some(2));
    assert_eq!(filled_words(9, 8), None);
}

#[test]
fn the_log_is_never_the_configuration() {
    assert!(!validate_destination("C:\\a.ini", "c:\\A.INI", None, None));
    assert!(validate_destination("C:\\a.ini", "C:\\a.log", None, None));
    assert!(!validate_destination(
        "C:\\a.ini",
        "C:\\a.log",
        Some(identity(1)),
        Some(identity(1))
    ));
    assert!(validate_destination(
        "C:\\a.ini",
        "C:\\a.log",
        Some(identity(1)),
        Some(identity(2))
    ));
}

#[test]
fn archives_are_recognised_by_their_header() {
    let key = identity(7).archive_key();
    let header = archive_header(&key, 42);
    assert_eq!(
        header,
        format!("# window-switcher archive v1 {key} 42\n")
    );
    let mut bytes = header.into_bytes();
    bytes.extend_from_slice(b"\xff log text 99\n");
    assert_eq!(archive_sequence(&bytes, &key), Some(42));
    assert_eq!(archive_sequence(&bytes, &identity(8).archive_key()), None);
    assert_eq!(archive_sequence(b"plain log\n", &key), None);
    assert_eq!(archive_sequence(b"", &key), None);
    assert_eq!(
        archive_fate(3, 2, &bytes, &key),
        ArchiveFate::Delete
    );
    assert_eq!(
        archive_fate(2, 2, &bytes, &key),
        ArchiveFate::Keep(Archive {
            index: 2,
            sequence: 42
        })
    );
    assert_eq!(archive_fate(2, 2, b"foreign", &key), ArchiveFate::Foreign);
    assert_eq!(archive_name("a.log", 3), "a.log.window-switcher.3.log");
}

#[test]
fn rotation_takes_free_names_before_the_oldest_archive() {
    assert!(limits_valid(512, 20));
    assert!(!limits_valid(511, 20));
    assert!(!limits_valid(512, 21));
    assert_eq!(plan_rotation(&[], 0, 10, 1000), Ok(None));
    let first = plan_rotation(&[], 2, 10, 1000).unwrap().unwrap();
    assert_eq!((first.index, first.sequence, first.tail), (1, 1, 10));
    let full = [
        Archive {
            index: 2,
            sequence: 8,
        },
        Archive {
            index: 1,
            sequence: 5,
        },
    ];
    let next = plan_rotation(&full, 3, 5000, 1000).unwrap().unwrap();
    assert_eq!((next.index, next.sequence, next.tail), (3, 9, 744));
    assert_eq!(next.replaced, None);
    let replaced = plan_rotation(&full, 2, 5000, 1000).unwrap().unwrap();
    assert_eq!((replaced.index, replaced.replaced), (1, Some(1)));
    let last = [Archive {
        index: 1,
        sequence: u64::MAX,
    }];
    assert_eq!(plan_rotation(&last, 1, 1, 1000), Err(()));
}

#[test]
fn records_are_appended_inspected_or_rotated() {
    assert_eq!(record_step(true, 0, 1001, 1000), RecordStep::TooLong);
    assert_eq!(record_step(true, 500, 500, 1000), RecordStep::Append);
    assert_eq!(record_step(false, 500, 500, 1000), RecordStep::Inspect);
    assert_eq!(record_step(true, 501, 500, 1000), RecordStep::Rotate);
    assert_eq!(after_failure(true, 1, 2), WriteStep::Retry);
    assert_eq!(after_failure(true, 2, 2), WriteStep::GiveUp);
    assert_eq!(after_failure(false, 1, 2), WriteStep::GiveUp);
    assert!(takes_record(2, 3, false));
    assert!(!takes_record(4, 3, false));
    assert!(!takes_record(2, 3, true));
}

#[test]
fn long_lines_are_cut_at_a_character() {
    assert_eq!(log_line(5, "WARN", "text"), "ts=5 level=WARN text\n");
    assert_eq!(limit_line("short"), "short");
    let exact = "a".repeat(16384);
    assert_eq!(limit_line(&exact), exact);
    let wide = "ü".repeat(8193);
    let cut = limit_line(&wide);
    assert_eq!(cut, format!("{} [record limited]", "ü".repeat(8192)));
    let odd = format!("a{}", "ü".repeat(8192));
    assert_eq!(
        limit_line(&odd),
        format!("a{} [record limited]", "ü".repeat(8191))
    );
}
