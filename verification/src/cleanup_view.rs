//! What the cleanup page shows: the list's header and footer, each row, the
//! rows of the history and the details of a run.
use vstd::prelude::*;
use vstd::string::{StrSliceExecFns, StringExecFns};
use crate::cleanup::{spec_date_field, TimeField};
use crate::cleanup_run::{chosen_of, lists_key, CleanupEntry, CleanupState, key_listed_in};
use crate::model::{CleanupBatch, CleanupCandidate, CleanupRecord, SessionMeta, TargetStatus};
use crate::outcome::{
    all_moved, batch_size, batch_status, outcome, spec_batch_size, spec_batch_sessions,
    spec_batch_status, spec_outcome, batch_sessions, Outcome,
};
use crate::reasons::{manual_restore_pending, spec_manual_restore_pending};

verus! {

/// The candidates among `shown`.
pub open spec fn available_count(shown: Seq<CleanupEntry>) -> int
    decreases shown.len(),
{
    if shown.len() == 0 {
        0
    } else {
        available_count(shown.drop_last()) + if shown.last() is Available {
            1int
        } else {
            0
        }
    }
}

/// The bytes of the candidates among `shown`.
pub open spec fn shown_bytes(shown: Seq<CleanupEntry>) -> int
    decreases shown.len(),
{
    if shown.len() == 0 {
        0
    } else {
        shown_bytes(shown.drop_last()) + match shown.last() {
            CleanupEntry::Available(c) => c.bytes as int,
            CleanupEntry::Unavailable(_) => 0,
        }
    }
}

pub open spec fn candidates_bytes(cands: Seq<CleanupCandidate>) -> int
    decreases cands.len(),
{
    if cands.len() == 0 {
        0
    } else {
        candidates_bytes(cands.drop_last()) + cands.last().bytes
    }
}

pub open spec fn candidates_sessions(cands: Seq<CleanupCandidate>) -> int
    decreases cands.len(),
{
    if cands.len() == 0 {
        0
    } else {
        candidates_sessions(cands.drop_last()) + cands.last().sessions@.len()
    }
}

proof fn lemma_chosen_within(shown: Seq<CleanupEntry>, selected: Seq<String>)
    ensures
        0 <= candidates_bytes(chosen_of(shown, selected)) <= shown_bytes(shown),
        chosen_of(shown, selected).len() <= available_count(shown),
        0 <= shown_bytes(shown),
        0 <= available_count(shown) <= shown.len(),
    decreases shown.len(),
{
    if shown.len() > 0 {
        lemma_chosen_within(shown.drop_last(), selected);
        let prev = chosen_of(shown.drop_last(), selected);
        match shown.last() {
            CleanupEntry::Available(c) => {
                if lists_key(selected, c.root.key@) {
                    assert(prev.push(c).drop_last() =~= prev);
                }
            },
            CleanupEntry::Unavailable(_) => {},
        }
    }
}

/// The count of rows over the list.
#[derive(Clone, Copy, Debug, PartialEq, Eq, Structural)]
pub enum RowTally {
    Loading,
    Rows { rows: usize, unavailable: usize },
}

/// The header of the cleanup list.
#[derive(Clone, Copy, Debug, PartialEq, Eq, Structural)]
pub struct ListHeader {
    /// The number of candidates offered for "select all"; none while loading.
    pub select_all_count: Option<usize>,
    pub select_all_checked: bool,
    pub select_all_enabled: bool,
    pub tally: RowTally,
    /// The date column.
    pub date_field: TimeField,
}

/// The line at the foot of the cleanup list.
#[derive(Clone, Copy, Debug, PartialEq, Eq, Structural)]
pub enum FooterStatus {
    Stopping,
    Moving { done: usize, total: usize },
    Checking { done: usize, total: usize },
    NoCleanable,
    Available { bytes: u64 },
    SelectPrompt,
    /// Only root sessions are selected.
    Selected { sessions: usize, bytes: u64 },
    /// The selected sessions carry nested sessions.
    SelectedWithNested { roots: usize, sessions: usize, bytes: u64 },
}

/// The foot of the cleanup list: its line and which buttons it offers.
#[derive(Clone, Copy, Debug, PartialEq, Eq, Structural)]
pub struct Footer {
    pub status: FooterStatus,
    pub history_button: bool,
    /// Offered while busy; it reads "stop" while files move.
    pub cancel_button: bool,
    pub cancel_stops_run: bool,
    pub cancel_enabled: bool,
    pub clear_button: bool,
    pub delete_button: bool,
    pub delete_enabled: bool,
}

pub open spec fn spec_footer_status(s: CleanupState) -> FooterStatus {
    let chosen = chosen_of(s.shown@, s.selected@);
    let available = available_count(s.shown@);
    let sessions = candidates_sessions(chosen);
    if s.busy && s.cancel_requested {
        FooterStatus::Stopping
    } else if s.executing {
        FooterStatus::Moving { done: s.progress, total: s.progress_total }
    } else if s.busy {
        FooterStatus::Checking { done: s.progress, total: s.progress_total }
    } else if chosen.len() == 0 && available == 0 && s.shown@.len() > 0 {
        FooterStatus::NoCleanable
    } else if chosen.len() == 0 && available > 0 && !s.loading {
        FooterStatus::Available { bytes: shown_bytes(s.shown@) as u64 }
    } else if chosen.len() == 0 {
        FooterStatus::SelectPrompt
    } else if chosen.len() == sessions {
        FooterStatus::Selected { sessions: sessions as usize, bytes: candidates_bytes(chosen) as u64 }
    } else {
        FooterStatus::SelectedWithNested {
            roots: chosen.len() as usize,
            sessions: sessions as usize,
            bytes: candidates_bytes(chosen) as u64,
        }
    }
}

fn count_available(shown: &Vec<CleanupEntry>) -> (res: usize)
    ensures
        res == available_count(shown@),
{
    let mut n: usize = 0;
    let mut i: usize = 0;
    while i < shown.len()
        invariant
            i <= shown.len(),
            n == available_count(shown@.take(i as int)),
            n <= i,
        decreases shown.len() - i,
    {
        proof {
            let t = shown@.take(i + 1 as int);
            assert(t.drop_last() =~= shown@.take(i as int));
            assert(t.last() == shown@[i as int]);
        }
        match &shown[i] {
            CleanupEntry::Available(_) => {
                n += 1;
            },
            CleanupEntry::Unavailable(_) => {},
        }
        i += 1;
    }
    assert(shown@.take(i as int) =~= shown@);
    n
}

fn sum_shown_bytes(shown: &Vec<CleanupEntry>) -> (res: u64)
    requires
        shown_bytes(shown@) <= u64::MAX,
    ensures
        res == shown_bytes(shown@),
{
    let mut total: u64 = 0;
    let mut i: usize = 0;
    while i < shown.len()
        invariant
            i <= shown.len(),
            total == shown_bytes(shown@.take(i as int)),
            shown_bytes(shown@) <= u64::MAX,
        decreases shown.len() - i,
    {
        proof {
            let t = shown@.take(i + 1 as int);
            assert(t.drop_last() =~= shown@.take(i as int));
            assert(t.last() == shown@[i as int]);
            lemma_shown_bytes_prefix(shown@, i + 1);
        }
        match &shown[i] {
            CleanupEntry::Available(c) => {
                total = total + c.bytes;
            },
            CleanupEntry::Unavailable(_) => {},
        }
        i += 1;
    }
    assert(shown@.take(i as int) =~= shown@);
    total
}

proof fn lemma_shown_bytes_prefix(shown: Seq<CleanupEntry>, k: int)
    requires
        0 <= k <= shown.len(),
    ensures
        0 <= shown_bytes(shown.take(k)) <= shown_bytes(shown),
    decreases shown.len() - k,
{
    if k < shown.len() {
        lemma_shown_bytes_prefix(shown, k + 1);
        let t = shown.take(k + 1);
        assert(t.drop_last() =~= shown.take(k));
    } else {
        assert(shown.take(k) =~= shown);
    }
    lemma_nonneg(shown.take(k));
}

proof fn lemma_nonneg(shown: Seq<CleanupEntry>)
    ensures
        shown_bytes(shown) >= 0,
    decreases shown.len(),
{
    if shown.len() > 0 {
        lemma_nonneg(shown.drop_last());
    }
}

proof fn lemma_candidates_prefix(cands: Seq<CleanupCandidate>, k: int)
    requires
        0 <= k <= cands.len(),
    ensures
        0 <= candidates_bytes(cands.take(k)) <= candidates_bytes(cands),
        0 <= candidates_sessions(cands.take(k)) <= candidates_sessions(cands),
    decreases cands.len() - k,
{
    if k < cands.len() {
        lemma_candidates_prefix(cands, k + 1);
        let t = cands.take(k + 1);
        assert(t.drop_last() =~= cands.take(k));
    } else {
        assert(cands.take(k) =~= cands);
    }
    lemma_candidates_nonneg(cands.take(k));
}

proof fn lemma_candidates_nonneg(cands: Seq<CleanupCandidate>)
    ensures
        candidates_bytes(cands) >= 0,
        candidates_sessions(cands) >= 0,
    decreases cands.len(),
{
    if cands.len() > 0 {
        lemma_candidates_nonneg(cands.drop_last());
    }
}

fn sum_candidates(cands: &Vec<CleanupCandidate>) -> (res: (u64, usize))
    requires
        candidates_bytes(cands@) <= u64::MAX,
        candidates_sessions(cands@) <= usize::MAX,
    ensures
        res.0 == candidates_bytes(cands@),
        res.1 == candidates_sessions(cands@),
{
    let mut bytes: u64 = 0;
    let mut sessions: usize = 0;
    let mut i: usize = 0;
    while i < cands.len()
        invariant
            i <= cands.len(),
            bytes == candidates_bytes(cands@.take(i as int)),
            sessions == candidates_sessions(cands@.take(i as int)),
            candidates_bytes(cands@) <= u64::MAX,
            candidates_sessions(cands@) <= usize::MAX,
        decreases cands.len() - i,
    {
        proof {
            let t = cands@.take(i + 1 as int);
            assert(t.drop_last() =~= cands@.take(i as int));
            assert(t.last() == cands@[i as int]);
            lemma_candidates_prefix(cands@, i + 1);
        }
        bytes = bytes + cands[i].bytes;
        sessions = sessions + cands[i].sessions.len();
        i += 1;
    }
    assert(cands@.take(i as int) =~= cands@);
    (bytes, sessions)
}

} // verus!

verus! {

proof fn lemma_same_sums(a: Seq<CleanupCandidate>, b: Seq<CleanupCandidate>)
    requires
        a.len() == b.len(),
        forall|i: int| 0 <= i < a.len() ==> (#[trigger] a[i]).same(b[i]),
    ensures
        candidates_bytes(a) == candidates_bytes(b),
        candidates_sessions(a) == candidates_sessions(b),
    decreases a.len(),
{
    if a.len() > 0 {
        assert forall|i: int| 0 <= i < a.drop_last().len() implies (#[trigger] a.drop_last()[i]).same(
            b.drop_last()[i],
        ) by {
            assert(a.drop_last()[i] == a[i]);
            assert(b.drop_last()[i] == b[i]);
        }
        lemma_same_sums(a.drop_last(), b.drop_last());
        assert(a.last().same(b.last()));
    }
}

impl CleanupState {
    /// The foot of the list.
    pub fn footer(&self) -> (res: Footer)
        requires
            shown_bytes(self.shown@) <= u64::MAX,
            candidates_sessions(chosen_of(self.shown@, self.selected@)) <= usize::MAX,
        ensures
            res.status == spec_footer_status(*self),
            ({
                let none_chosen = chosen_of(self.shown@, self.selected@).len() == 0;
                &&& res.history_button == (none_chosen && !self.busy)
                &&& res.cancel_button == self.busy
                &&& res.cancel_stops_run == self.executing
                &&& res.cancel_enabled == !self.cancel_requested
                &&& res.clear_button == (!none_chosen && !self.busy)
                &&& res.delete_button == (!none_chosen && !self.busy)
                &&& res.delete_enabled == !self.loading
            }),
    {
        let chosen = self.chosen();
        let ghost spec_chosen = chosen_of(self.shown@, self.selected@);
        proof {
            lemma_same_sums(chosen@, spec_chosen);
            lemma_chosen_within(self.shown@, self.selected@);
        }
        let available = count_available(&self.shown);
        let (selected_bytes, selected_sessions) = sum_candidates(&chosen);
        let rows = self.shown.len();
        let status = if self.busy && self.cancel_requested {
            FooterStatus::Stopping
        } else if self.executing {
            FooterStatus::Moving { done: self.progress, total: self.progress_total }
        } else if self.busy {
            FooterStatus::Checking { done: self.progress, total: self.progress_total }
        } else if chosen.len() == 0 && available == 0 && rows > 0 {
            FooterStatus::NoCleanable
        } else if chosen.len() == 0 && available > 0 && !self.loading {
            FooterStatus::Available { bytes: sum_shown_bytes(&self.shown) }
        } else if chosen.len() == 0 {
            FooterStatus::SelectPrompt
        } else if chosen.len() == selected_sessions {
            FooterStatus::Selected { sessions: selected_sessions, bytes: selected_bytes }
        } else {
            FooterStatus::SelectedWithNested {
                roots: chosen.len(),
                sessions: selected_sessions,
                bytes: selected_bytes,
            }
        };
        let none_chosen = chosen.len() == 0;
        Footer {
            status,
            history_button: none_chosen && !self.busy,
            cancel_button: self.busy,
            cancel_stops_run: self.executing,
            cancel_enabled: !self.cancel_requested,
            clear_button: !none_chosen && !self.busy,
            delete_button: !none_chosen && !self.busy,
            delete_enabled: !self.loading,
        }
    }

    /// The header of the list.
    pub fn list_header(&self) -> (res: ListHeader)
        ensures
            ({
                let available = available_count(self.shown@);
                &&& res.select_all_count == (if self.loading {
                    None
                } else {
                    Some(available as usize)
                })
                &&& res.select_all_checked == (available > 0 && self.selected@.len() == available)
                &&& res.select_all_enabled == (!self.loading && !self.busy && available > 0)
                &&& res.tally == (if self.loading {
                    RowTally::Loading
                } else {
                    RowTally::Rows {
                        rows: self.shown@.len() as usize,
                        unavailable: (self.shown@.len() - available) as usize,
                    }
                })
                &&& res.date_field == spec_date_field(self.options)
            }),
    {
        proof {
            lemma_chosen_within(self.shown@, self.selected@);
        }
        let available = count_available(&self.shown);
        ListHeader {
            select_all_count: if self.loading {
                None
            } else {
                Some(available)
            },
            select_all_checked: available > 0 && self.selected.len() == available,
            select_all_enabled: !self.loading && !self.busy && available > 0,
            tally: if self.loading {
                RowTally::Loading
            } else {
                RowTally::Rows { rows: self.shown.len(), unavailable: self.shown.len() - available }
            },
            date_field: crate::cleanup::date_field(&self.options),
        }
    }
}

} // verus!

verus! {

/// Some session of `members` is starred.
pub open spec fn any_starred(members: Seq<SessionMeta>) -> bool {
    exists|i: int| 0 <= i < members.len() && (#[trigger] members[i]).favorite
}

/// Some session of `members` is pinned.
pub open spec fn any_pinned(members: Seq<SessionMeta>) -> bool {
    exists|i: int| 0 <= i < members.len() && (#[trigger] members[i]).pinned
}

fn starred_any(members: &Vec<SessionMeta>) -> (res: bool)
    ensures
        res == any_starred(members@),
{
    let mut i: usize = 0;
    while i < members.len()
        invariant
            i <= members.len(),
            forall|k: int| 0 <= k < i ==> !(#[trigger] members@[k]).favorite,
        decreases members.len() - i,
    {
        if members[i].favorite {
            return true;
        }
        i += 1;
    }
    false
}

fn pinned_any(members: &Vec<SessionMeta>) -> (res: bool)
    ensures
        res == any_pinned(members@),
{
    let mut i: usize = 0;
    while i < members.len()
        invariant
            i <= members.len(),
            forall|k: int| 0 <= k < i ==> !(#[trigger] members@[k]).pinned,
        decreases members.len() - i,
    {
        if members[i].pinned {
            return true;
        }
        i += 1;
    }
    false
}

/// One row of the cleanup list.
#[derive(Clone, Debug)]
pub struct CleanupRowView {
    pub key: String,
    /// The session can be cleaned up.
    pub selectable: bool,
    pub selected: bool,
    pub checkbox_enabled: bool,
    /// Why the session cannot be cleaned up.
    pub reason: Option<String>,
    /// Some session of the tree is starred.
    pub starred: bool,
    /// Some session of the tree is pinned.
    pub pinned: bool,
    /// The number of nested sessions of a cleanable tree that has some.
    pub nested: Option<usize>,
    /// The date of the date column, when there is one.
    pub date: Option<i64>,
    /// The bytes of a cleanable tree.
    pub size: Option<u64>,
}

impl CleanupState {
    /// The row at `ix`, showing `date_field` in its date column.
    pub fn row_view(&self, ix: usize, date_field: TimeField) -> (res: Option<CleanupRowView>)
        ensures
            ix >= self.shown@.len() ==> res is None,
            ix < self.shown@.len() ==> (res matches Some(v) && ({
                let entry = self.shown@[ix as int];
                let meta = entry.spec_session();
                let members = match entry {
                    CleanupEntry::Available(c) => c.sessions@,
                    CleanupEntry::Unavailable(u) => u.sessions@,
                };
                let selectable = entry is Available;
                let date = match date_field {
                    TimeField::Created => meta.created_at,
                    TimeField::Updated => entry.spec_updated_at(),
                };
                &&& v.key@ == meta.key@
                &&& v.selectable == selectable
                &&& v.selected == (selectable && lists_key(self.selected@, meta.key@))
                &&& v.checkbox_enabled == (selectable && !self.busy && !self.loading)
                &&& v.reason == match entry {
                    CleanupEntry::Available(_) => None,
                    CleanupEntry::Unavailable(u) => Some(u.reason),
                }
                &&& v.starred == any_starred(members)
                &&& v.pinned == any_pinned(members)
                &&& v.nested == (if selectable && members.len() > 1 {
                    Some((members.len() - 1) as usize)
                } else {
                    None
                })
                &&& v.date == (if date > 0 {
                    Some(date)
                } else {
                    None
                })
                &&& v.size == match entry {
                    CleanupEntry::Available(c) => Some(c.bytes),
                    CleanupEntry::Unavailable(_) => None,
                }
            })),
    {
        if ix >= self.shown.len() {
            return None;
        }
        let entry = &self.shown[ix];
        let meta = entry.session();
        let (members, reason, size) = match entry {
            CleanupEntry::Available(c) => (&c.sessions, None, Some(c.bytes)),
            CleanupEntry::Unavailable(u) => (&u.sessions, Some(u.reason.clone()), None),
        };
        let selectable = size.is_some();
        let date = match date_field {
            TimeField::Created => meta.created_at,
            TimeField::Updated => entry.updated_at(),
        };
        Some(
            CleanupRowView {
                key: meta.key.clone(),
                selectable,
                selected: selectable && key_listed_in(&self.selected, &meta.key),
                checkbox_enabled: selectable && !self.busy && !self.loading,
                reason,
                starred: starred_any(members),
                pinned: pinned_any(members),
                nested: if selectable && members.len() > 1 {
                    Some(members.len() - 1)
                } else {
                    None
                },
                date: if date > 0 {
                    Some(date)
                } else {
                    None
                },
                size,
            },
        )
    }

    /// The label of the way back from a run or the history: to the history
    /// when a run was opened from it, else to the list.
    pub fn history_back_label(&self) -> (res: &'static str)
        ensures
            res@ == (if self.history_open && self.result is Some {
                "Cleanup history"@
            } else {
                "Clean Up Sessions"@
            }),
    {
        if self.history_open && self.result.is_some() {
            "Cleanup history"
        } else {
            "Clean Up Sessions"
        }
    }
}

/// One row of the history list.
#[derive(Clone, Debug)]
pub struct HistoryRow {
    /// The title of the run's first session, if it has one.
    pub title: Option<String>,
    /// How many more sessions the run had.
    pub more: Option<usize>,
    pub status: Outcome,
    pub stamp: i64,
    pub bytes: u64,
    pub sessions: usize,
}

/// The history row of `batch`.
pub fn history_row(batch: &CleanupBatch) -> (res: HistoryRow)
    requires
        spec_batch_size(batch.records@) <= u64::MAX,
        spec_batch_sessions(batch.records@) <= usize::MAX,
    ensures
        res.title == (if batch.records@.len() > 0 {
            Some(batch.records@[0].candidate.root.title)
        } else {
            None::<String>
        }),
        res.more == (if batch.records@.len() > 1 {
            Some((batch.records@.len() - 1) as usize)
        } else {
            None
        }),
        res.status == spec_batch_status(*batch),
        res.stamp == batch.stamp,
        res.bytes == spec_batch_size(batch.records@),
        res.sessions == spec_batch_sessions(batch.records@),
{
    HistoryRow {
        title: if batch.records.len() > 0 {
            Some(batch.records[0].candidate.root.title.clone())
        } else {
            None
        },
        more: if batch.records.len() > 1 {
            Some(batch.records.len() - 1)
        } else {
            None
        },
        status: batch_status(batch),
        stamp: batch.stamp,
        bytes: batch_size(batch),
        sessions: batch_sessions(batch),
    }
}

/// A record whose files were all moved but whose sessions are still in
/// the index: updating the index can be retried.
pub open spec fn can_retry_record(r: CleanupRecord) -> bool {
    !r.indexed && !r.restored && r.targets@.len() > 0 && all_moved(r.targets@)
}

/// The actions a run offers.
#[derive(Clone, Copy, Debug, PartialEq, Eq, Structural)]
pub struct RecordActions {
    /// Files wait in the trash: offer to open it and to check restored files.
    pub can_restore: bool,
    /// Offer to retry the index update.
    pub can_retry: bool,
    pub show_actions: bool,
}

fn all_targets_moved(targets: &Vec<TargetStatus>) -> (res: bool)
    ensures
        res == all_moved(targets@),
{
    let mut i: usize = 0;
    while i < targets.len()
        invariant
            i <= targets.len(),
            forall|k: int| 0 <= k < i ==> (#[trigger] targets@[k]).spec_is_moved(),
        decreases targets.len() - i,
    {
        if !targets[i].is_moved() {
            return false;
        }
        i += 1;
    }
    true
}

/// The actions of run `batch`, while a check is `busy` or not.
pub fn record_actions(batch: &CleanupBatch, busy: bool) -> (res: RecordActions)
    ensures
        res.can_restore == (exists|i: int|
            0 <= i < batch.records@.len() && (#[trigger] batch.records@[i]).restorable),
        res.can_retry == (exists|i: int|
            0 <= i < batch.records@.len() && can_retry_record(#[trigger] batch.records@[i])),
        res.show_actions == (res.can_restore || res.can_retry || busy),
{
    let mut can_restore = false;
    let mut can_retry = false;
    let mut i: usize = 0;
    while i < batch.records.len()
        invariant
            i <= batch.records.len(),
            can_restore == (exists|k: int| 0 <= k < i && (#[trigger] batch.records@[k]).restorable),
            can_retry == (exists|k: int| 0 <= k < i && can_retry_record(#[trigger] batch.records@[k])),
        decreases batch.records.len() - i,
    {
        let r = &batch.records[i];
        if r.restorable {
            can_restore = true;
        }
        if !r.indexed && !r.restored && r.targets.len() > 0 && all_targets_moved(&r.targets) {
            can_retry = true;
        }
        proof {
            if can_restore {
                if r.restorable {
                    assert(batch.records@[i as int].restorable);
                }
            }
            if can_retry && can_retry_record(*r) {
                assert(can_retry_record(batch.records@[i as int]));
            }
        }
        i += 1;
    }
    RecordActions { can_restore, can_retry, show_actions: can_restore || can_retry || busy }
}

/// How a file location of a record reads.
#[derive(Clone, Copy, Debug, PartialEq, Eq, Structural)]
pub enum TargetLabel {
    Restored,
    NotStarted,
    /// The move may or may not have happened: look in the trash.
    VerifyInTrash,
    MovedToTrash,
    Failed,
}

/// The label of a file location of a record, restored or not.
pub fn target_label(restored: bool, status: &TargetStatus) -> (res: TargetLabel)
    ensures
        res == (if restored {
            TargetLabel::Restored
        } else {
            match *status {
                TargetStatus::Pending => TargetLabel::NotStarted,
                TargetStatus::Moving => TargetLabel::VerifyInTrash,
                TargetStatus::Moved => TargetLabel::MovedToTrash,
                TargetStatus::Failed(_) => TargetLabel::Failed,
            }
        }),
{
    if restored {
        TargetLabel::Restored
    } else {
        match status {
            TargetStatus::Pending => TargetLabel::NotStarted,
            TargetStatus::Moving => TargetLabel::VerifyInTrash,
            TargetStatus::Moved => TargetLabel::MovedToTrash,
            TargetStatus::Failed(_) => TargetLabel::Failed,
        }
    }
}

/// One record of a run in detail.
#[derive(Clone, Debug)]
pub struct RecordRowView {
    pub status: Outcome,
    /// Its file locations are disclosed.
    pub expanded: bool,
    /// The error to show: one that does not only wait on a manual restore.
    pub error: Option<String>,
    /// The number of sessions of a tree with nested sessions.
    pub sessions: Option<usize>,
    pub files: usize,
}

/// The row of `record`, with the disclosed records `expanded`.
pub fn record_row(record: &CleanupRecord, expanded: &Vec<String>) -> (res: RecordRowView)
    ensures
        res.status == spec_outcome(*record),
        res.expanded == lists_key(expanded@, record.candidate.root.key@),
        res.error == (if !record.restored && (record.error matches Some(e)
            && !spec_manual_restore_pending(e@)) {
            record.error
        } else {
            None
        }),
        res.sessions == (if record.candidate.sessions@.len() > 1 {
            Some(record.candidate.sessions@.len() as usize)
        } else {
            None
        }),
        res.files == record.candidate.targets@.len(),
{
    let show_error = !record.restored && match &record.error {
        Some(e) => !manual_restore_pending(e.as_str()),
        None => false,
    };
    RecordRowView {
        status: outcome(record),
        expanded: key_listed_in(expanded, &record.candidate.root.key),
        error: if show_error {
            crate::model::duplicate_text(&record.error)
        } else {
            None
        },
        sessions: if record.candidate.sessions.len() > 1 {
            Some(record.candidate.sessions.len())
        } else {
            None
        },
        files: record.candidate.targets.len(),
    }
}

} // verus!

verus! {

/// The sessions and bytes a reviewed cleanup will move.
#[derive(Clone, Copy, Debug, PartialEq, Eq, Structural)]
pub struct ReviewSummary {
    /// Root and nested sessions; one reads as "this session".
    pub sessions: usize,
    pub bytes: u64,
}

/// What the confirmation of a review announces for the `ready` candidates.
pub fn review_summary(ready: &Vec<CleanupCandidate>) -> (res: ReviewSummary)
    requires
        candidates_bytes(ready@) <= u64::MAX,
        candidates_sessions(ready@) <= usize::MAX,
    ensures
        res.sessions == candidates_sessions(ready@),
        res.bytes == candidates_bytes(ready@),
{
    let (bytes, sessions) = sum_candidates(ready);
    ReviewSummary { sessions, bytes }
}

} // verus!

verus! {

/// The tooltip of a row's title: the whole title, then a line for a
/// starred and a line for a pinned session in the tree.
pub open spec fn spec_title_tooltip(title: Seq<char>, starred: bool, pinned: bool) -> Seq<char> {
    title + (if starred {
        "\nIncludes a starred session"@
    } else {
        Seq::empty()
    }) + (if pinned {
        "\nIncludes a pinned session"@
    } else {
        Seq::empty()
    })
}

pub fn title_tooltip(title: &str, starred: bool, pinned: bool) -> (res: String)
    ensures
        res@ == spec_title_tooltip(title@, starred, pinned),
{
    let mut tip = title.to_owned();
    if starred {
        tip.append("\nIncludes a starred session");
    }
    if pinned {
        tip.append("\nIncludes a pinned session");
    }
    assert(tip@ =~= spec_title_tooltip(title@, starred, pinned));
    tip
}

} // verus!
