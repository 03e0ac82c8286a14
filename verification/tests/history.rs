use wake_workbench::model::TargetStatus;
use wake_workbench::outcome::Outcome::{
    Interrupted, Moved, NeedsAttention, NotStarted, Partial, PartlyRestored, Restored,
};
use wake_workbench::outcome::{batch_outcome, record_outcome, Outcome};
use wake_workbench::reasons::{manual_restore_hint, manual_restore_pending, unavailable_reason};

#[test]
fn trash_permission_errors_offer_manual_recovery_without_hiding_other_failures() {
    for on_macos in [false, true] {
        let expected = manual_restore_hint(on_macos);
        for error in [
            "Cannot access Trash: Operation not permitted (os error 1)",
            "Finder could not list Trash: Not authorized to send Apple events",
            "Could not restore this file from Trash: Permission denied (os error 13)",
            "IO error for operation on /Users/tester/.Trash/session/: Operation not permitted (os error 1): Operation not permitted (os error 1)",
            "Restored files are still missing from their original locations.",
        ] {
            assert_eq!(unavailable_reason(error, on_macos), expected);
            assert!(manual_restore_pending(error));
        }
        let conflict = "The original location contains different files. Nothing was overwritten.";
        assert_eq!(unavailable_reason(conflict, on_macos), conflict);
        assert!(!manual_restore_pending(conflict));
    }
}

#[test]
fn unfinished_moves_and_failed_indexing_need_attention() {
    assert_eq!(
        record_outcome(false, false, false, &[TargetStatus::Moved]),
        Outcome::NeedsAttention
    );
    assert_eq!(
        record_outcome(false, false, false, &[TargetStatus::Moving]),
        Outcome::NeedsAttention
    );
    assert_eq!(
        record_outcome(false, true, false, &[TargetStatus::Moved]),
        Outcome::Moved
    );
    assert_eq!(
        record_outcome(false, true, true, &[TargetStatus::Moved]),
        Outcome::NeedsAttention
    );
    assert_eq!(
        record_outcome(false, false, false, &[TargetStatus::Pending]),
        Outcome::NotStarted
    );
    assert_eq!(
        record_outcome(false, false, true, &[TargetStatus::Pending]),
        Outcome::NeedsAttention
    );
}

#[test]
fn historical_outcomes_distinguish_partial_work_and_restoration() {
    assert_eq!(batch_outcome(true, &[], false), NotStarted);
    assert_eq!(batch_outcome(false, &[Moved], true), Interrupted);
    assert_eq!(batch_outcome(true, &[Moved, NotStarted], true), Partial);
    assert_eq!(batch_outcome(true, &[NeedsAttention], true), Partial);
    assert_eq!(batch_outcome(true, &[NeedsAttention], false), NeedsAttention);
    assert_eq!(batch_outcome(true, &[Moved, Restored], true), PartlyRestored);
    assert_eq!(batch_outcome(true, &[Restored], true), Restored);
}

#[test]
fn reason_messages_are_shown_as_themselves() {
    for on_macos in [false, true] {
        for raw in [
            "Cannot access Trash: Operation not permitted (os error 1)",
            "Restored files do not match the deleted files",
            "Session has unrecognized content",
            "Session tree changed",
            "Session no longer exists",
            "Remote mirrors are read-only",
            "No independently owned files",
            "Shared cleanup target",
            "Session tree contains a cycle",
            "Symbolic links are not supported",
            "something else entirely",
        ] {
            let shown = unavailable_reason(raw, on_macos);
            assert_eq!(unavailable_reason(shown, on_macos), shown);
        }
    }
}
