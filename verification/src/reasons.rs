//! Cleanup failure reasons: which ones wait on the user restoring files by
//! hand, and the message shown for each raw reason reported by the cleanup
//! engine. Messages are the English message keys the interface translates.
use vstd::prelude::*;
use crate::text::{occurs_at, seq_contains, seq_starts_with, text_contains, text_eq, text_starts_with};

verus! {

/// A reason that only the user can resolve, by putting files back from the
/// system trash (the trash is unreadable to Wake, or restored files are not
/// yet where they belong).
pub open spec fn spec_manual_restore_pending(r: Seq<char>) -> bool {
    ||| seq_starts_with(r, "Finder could not list Trash:"@)
    ||| seq_starts_with(r, "Cannot access Trash:"@)
    ||| (seq_contains(r, "/.Trash/"@) || seq_contains(r, "/.Trashes/"@)) && (seq_contains(
        r,
        "Operation not permitted"@,
    ) || seq_contains(r, "Permission denied"@))
    ||| seq_starts_with(r, "Could not restore this file from Trash: Operation not permitted"@)
    ||| seq_starts_with(r, "Could not restore this file from Trash: Permission denied"@)
    ||| r == "Restored files are still missing from their original locations."@
    ||| seq_starts_with(r, "Restore this file first:"@)
}

/// The instruction shown when files must be restored by hand; macOS names
/// Finder's "Put Back" command.
pub open spec fn spec_manual_restore_hint(on_macos: bool) -> Seq<char> {
    if on_macos {
        "To restore, choose Put Back in Trash, then click Check."@
    } else {
        "Restore the files in your system trash, then click Check."@
    }
}

/// The message for a raw cleanup reason. Reasons not listed here are shown
/// as they are.
pub open spec fn spec_unavailable_reason(r: Seq<char>, on_macos: bool) -> Seq<char> {
    if spec_manual_restore_pending(r) {
        spec_manual_restore_hint(on_macos)
    } else if r == "Restored files do not match the deleted files"@ {
        "Some restored files differ from the deleted files. Check the file locations below."@
    } else if r == "Session has unrecognized content"@ {
        "Wake cannot read part of this session's format."@
    } else if r == "Session or files changed since review; refresh and review again"@ || r
        == "Source changed while checking"@ || r == "Session tree changed"@ {
        "This session changed. Refresh the list and try again."@
    } else if r == "Session no longer exists"@ {
        "This session is no longer available. Refresh the list."@
    } else if r == "Remote sessions are read-only"@ || r == "Remote mirrors are read-only"@ {
        "Remote sessions are read-only"@
    } else if r == "This source does not support independent file cleanup"@ || r
        == "No independently owned files"@ {
        "This source does not support independent file cleanup"@
    } else if r == "Shared cleanup target"@ || r == "Target also contains another session"@ {
        "Files are shared with another session"@
    } else if r == "Parent session is unavailable"@ || r == "Session tree contains a cycle"@ {
        "The complete session tree could not be verified"@
    } else if spec_ownership_reason(r) {
        "File ownership could not be verified"@
    } else {
        r
    }
}

/// Reasons saying that Wake could not prove it owns the files.
pub open spec fn spec_ownership_reason(r: Seq<char>) -> bool {
    ||| r == "Symbolic links are not supported"@
    ||| r == "Shared hard links are not supported"@
    ||| r == "Source path contains links or is not absolute"@
    ||| r == "Source is outside the enabled location"@
    ||| r == "Cleanup target is outside the source location"@
}

/// The short label of a reason in a cleanup row; reasons without a short
/// label use their full message.
pub open spec fn spec_reason_label(r: Seq<char>, on_macos: bool) -> Seq<char> {
    if r == "This source does not support independent file cleanup"@ || r
        == "No independently owned files"@ {
        "Individual cleanup unsupported"@
    } else if r == "Remote sessions are read-only"@ || r == "Remote mirrors are read-only"@ {
        "Remote · read-only"@
    } else if r == "Shared cleanup target"@ || r == "Target also contains another session"@ {
        "Shared session files"@
    } else if r == "Source file is missing"@ {
        "Source file missing"@
    } else if r == "Source is not enabled"@ {
        "Source disabled"@
    } else if r == "Network locations cannot be moved to the Recycle Bin"@ {
        "Network location"@
    } else if r == "This location does not support safe recycling"@ {
        "Recycling unavailable"@
    } else if r == "Parent session is unavailable"@ || r == "Session tree contains a cycle"@ {
        "Session tree unverified"@
    } else if spec_ownership_reason(r) {
        "File ownership unverified"@
    } else if r == "Session has unrecognized content"@ {
        "Unrecognized session format"@
    } else {
        spec_unavailable_reason(r, on_macos)
    }
}

/// Whether the reason waits on the user restoring files from the trash.
pub fn manual_restore_pending(reason: &str) -> (res: bool)
    ensures
        res == spec_manual_restore_pending(reason@),
{
    text_starts_with(reason, "Finder could not list Trash:") || text_starts_with(
        reason,
        "Cannot access Trash:",
    ) || ((text_contains(reason, "/.Trash/") || text_contains(reason, "/.Trashes/")) && (
    text_contains(reason, "Operation not permitted") || text_contains(reason, "Permission denied")))
        || text_starts_with(
        reason,
        "Could not restore this file from Trash: Operation not permitted",
    ) || text_starts_with(reason, "Could not restore this file from Trash: Permission denied")
        || text_eq(reason, "Restored files are still missing from their original locations.")
        || text_starts_with(reason, "Restore this file first:")
}

/// How to restore files by hand on this platform.
pub fn manual_restore_hint(on_macos: bool) -> (res: &'static str)
    ensures
        res@ == spec_manual_restore_hint(on_macos),
{
    if on_macos {
        "To restore, choose Put Back in Trash, then click Check."
    } else {
        "Restore the files in your system trash, then click Check."
    }
}

fn ownership_reason(r: &str) -> (res: bool)
    ensures
        res == spec_ownership_reason(r@),
{
    text_eq(r, "Symbolic links are not supported") || text_eq(
        r,
        "Shared hard links are not supported",
    ) || text_eq(r, "Source path contains links or is not absolute") || text_eq(
        r,
        "Source is outside the enabled location",
    ) || text_eq(r, "Cleanup target is outside the source location")
}

/// The message shown for a raw cleanup reason.
pub fn unavailable_reason<'a>(reason: &'a str, on_macos: bool) -> (res: &'a str)
    ensures
        res@ == spec_unavailable_reason(reason@, on_macos),
{
    let r = reason;
    if manual_restore_pending(r) {
        manual_restore_hint(on_macos)
    } else if text_eq(r, "Restored files do not match the deleted files") {
        "Some restored files differ from the deleted files. Check the file locations below."
    } else if text_eq(r, "Session has unrecognized content") {
        "Wake cannot read part of this session's format."
    } else if text_eq(r, "Session or files changed since review; refresh and review again")
        || text_eq(r, "Source changed while checking") || text_eq(r, "Session tree changed") {
        "This session changed. Refresh the list and try again."
    } else if text_eq(r, "Session no longer exists") {
        "This session is no longer available. Refresh the list."
    } else if text_eq(r, "Remote sessions are read-only") || text_eq(
        r,
        "Remote mirrors are read-only",
    ) {
        "Remote sessions are read-only"
    } else if text_eq(r, "This source does not support independent file cleanup") || text_eq(
        r,
        "No independently owned files",
    ) {
        "This source does not support independent file cleanup"
    } else if text_eq(r, "Shared cleanup target") || text_eq(
        r,
        "Target also contains another session",
    ) {
        "Files are shared with another session"
    } else if text_eq(r, "Parent session is unavailable") || text_eq(
        r,
        "Session tree contains a cycle",
    ) {
        "The complete session tree could not be verified"
    } else if ownership_reason(r) {
        "File ownership could not be verified"
    } else {
        r
    }
}

/// The short label of a reason in a cleanup row.
pub fn reason_label<'a>(reason: &'a str, on_macos: bool) -> (res: &'a str)
    ensures
        res@ == spec_reason_label(reason@, on_macos),
{
    let r = reason;
    if text_eq(r, "This source does not support independent file cleanup") || text_eq(
        r,
        "No independently owned files",
    ) {
        "Individual cleanup unsupported"
    } else if text_eq(r, "Remote sessions are read-only") || text_eq(
        r,
        "Remote mirrors are read-only",
    ) {
        "Remote · read-only"
    } else if text_eq(r, "Shared cleanup target") || text_eq(
        r,
        "Target also contains another session",
    ) {
        "Shared session files"
    } else if text_eq(r, "Source file is missing") {
        "Source file missing"
    } else if text_eq(r, "Source is not enabled") {
        "Source disabled"
    } else if text_eq(r, "Network locations cannot be moved to the Recycle Bin") {
        "Network location"
    } else if text_eq(r, "This location does not support safe recycling") {
        "Recycling unavailable"
    } else if text_eq(r, "Parent session is unavailable") || text_eq(
        r,
        "Session tree contains a cycle",
    ) {
        "Session tree unverified"
    } else if ownership_reason(r) {
        "File ownership unverified"
    } else if text_eq(r, "Session has unrecognized content") {
        "Unrecognized session format"
    } else {
        unavailable_reason(r, on_macos)
    }
}

} // verus!

verus! {

proof fn lemma_lacks_first_char(s: Seq<char>, p: Seq<char>)
    requires
        p.len() > 0,
        forall|i: int| 0 <= i < s.len() ==> s[i] != p[0],
    ensures
        !seq_contains(s, p),
{
    if seq_contains(s, p) {
        let i = choose|i: int| occurs_at(s, p, i);
        assert(s.subrange(i, i + p.len())[0] == s[i]);
    }
}

proof fn lemma_differs_at(s: Seq<char>, p: Seq<char>, k: int)
    requires
        0 <= k < p.len(),
        k < s.len(),
        s[k] != p[k],
    ensures
        !seq_starts_with(s, p),
{
    if p.len() <= s.len() {
        assert(s.subrange(0, p.len() as int)[k] == s[k]);
    }
}

/// A message without a slash, not starting with `C`, that differs from
/// the two other prefixes of reasons waiting on a manual restore at the
/// given positions, never waits on one.
proof fn lemma_not_pending(x: Seq<char>, k_finder: int, k_restore: int)
    requires
        forall|i: int| 0 <= i < x.len() ==> x[i] != '/',
        x.len() > 0,
        x[0] != 'C',
        0 <= k_finder < x.len() && 0 <= k_finder < "Finder could not list Trash:"@.len()
            && x[k_finder] != "Finder could not list Trash:"@[k_finder],
        0 <= k_restore < x.len() && 0 <= k_restore < "Restore this file first:"@.len()
            && x[k_restore] != "Restore this file first:"@[k_restore],
        x != "Restored files are still missing from their original locations."@,
    ensures
        !spec_manual_restore_pending(x),
{
    reveal_strlit("Cannot access Trash:");
    reveal_strlit("/.Trash/");
    reveal_strlit("/.Trashes/");
    reveal_strlit("Could not restore this file from Trash: Operation not permitted");
    reveal_strlit("Could not restore this file from Trash: Permission denied");
    lemma_differs_at(x, "Finder could not list Trash:"@, k_finder);
    lemma_differs_at(x, "Cannot access Trash:"@, 0);
    lemma_lacks_first_char(x, "/.Trash/"@);
    lemma_lacks_first_char(x, "/.Trashes/"@);
    lemma_differs_at(x, "Could not restore this file from Trash: Operation not permitted"@, 0);
    lemma_differs_at(x, "Could not restore this file from Trash: Permission denied"@, 0);
    lemma_differs_at(x, "Restore this file first:"@, k_restore);
}

/// Showing a reason's message again changes nothing: every message is
/// shown as itself, the restore instruction included.
pub proof fn law_reason_message_settled(r: Seq<char>, on_macos: bool)
    ensures
        spec_unavailable_reason(spec_unavailable_reason(r, on_macos), on_macos)
            == spec_unavailable_reason(r, on_macos),
{
    let x = spec_unavailable_reason(r, on_macos);
    reveal_strlit("To restore, choose Put Back in Trash, then click Check.");
    reveal_strlit("Restore the files in your system trash, then click Check.");
    reveal_strlit("Some restored files differ from the deleted files. Check the file locations below.");
    reveal_strlit("Wake cannot read part of this session's format.");
    reveal_strlit("This session changed. Refresh the list and try again.");
    reveal_strlit("This session is no longer available. Refresh the list.");
    reveal_strlit("Remote sessions are read-only");
    reveal_strlit("This source does not support independent file cleanup");
    reveal_strlit("Files are shared with another session");
    reveal_strlit("The complete session tree could not be verified");
    reveal_strlit("File ownership could not be verified");
    reveal_strlit("Restored files are still missing from their original locations.");
    reveal_strlit("Restored files do not match the deleted files");
    reveal_strlit("Session has unrecognized content");
    reveal_strlit("Session or files changed since review; refresh and review again");
    reveal_strlit("Source changed while checking");
    reveal_strlit("Session tree changed");
    reveal_strlit("Session no longer exists");
    reveal_strlit("Remote mirrors are read-only");
    reveal_strlit("No independently owned files");
    reveal_strlit("Shared cleanup target");
    reveal_strlit("Target also contains another session");
    reveal_strlit("Parent session is unavailable");
    reveal_strlit("Session tree contains a cycle");
    reveal_strlit("Symbolic links are not supported");
    reveal_strlit("Shared hard links are not supported");
    reveal_strlit("Source path contains links or is not absolute");
    reveal_strlit("Source is outside the enabled location");
    reveal_strlit("Cleanup target is outside the source location");
    reveal_strlit("Finder could not list Trash:");
    reveal_strlit("Restore this file first:");
    if x == "To restore, choose Put Back in Trash, then click Check."@ {
        lemma_not_pending(x, 0, 0);
        assert(spec_unavailable_reason(x, on_macos) == x);
    } else if x == "Restore the files in your system trash, then click Check."@ {
        lemma_not_pending(x, 0, 10);
        assert(spec_unavailable_reason(x, on_macos) == x);
    } else if x == "Some restored files differ from the deleted files. Check the file locations below."@ {
        lemma_not_pending(x, 0, 0);
        assert(spec_unavailable_reason(x, on_macos) == x);
    } else if x == "Wake cannot read part of this session's format."@ {
        lemma_not_pending(x, 0, 0);
        assert(spec_unavailable_reason(x, on_macos) == x);
    } else if x == "This session changed. Refresh the list and try again."@ {
        lemma_not_pending(x, 0, 0);
        assert(spec_unavailable_reason(x, on_macos) == x);
    } else if x == "This session is no longer available. Refresh the list."@ {
        lemma_not_pending(x, 0, 0);
        assert(spec_unavailable_reason(x, on_macos) == x);
    } else if x == "Remote sessions are read-only"@ {
        lemma_not_pending(x, 0, 2);
        assert(spec_unavailable_reason(x, on_macos) == x);
    } else if x == "This source does not support independent file cleanup"@ {
        assert(x.len() != "Restored files are still missing from their original locations."@.len());
        lemma_not_pending(x, 0, 0);
        assert(spec_unavailable_reason(x, on_macos) == x);
    } else if x == "Files are shared with another session"@ {
        lemma_not_pending(x, 2, 0);
        assert(spec_unavailable_reason(x, on_macos) == x);
    } else if x == "The complete session tree could not be verified"@ {
        lemma_not_pending(x, 0, 0);
        assert(spec_unavailable_reason(x, on_macos) == x);
    } else if x == "File ownership could not be verified"@ {
        lemma_not_pending(x, 2, 0);
        assert(spec_unavailable_reason(x, on_macos) == x);
    }
}

} // verus!
