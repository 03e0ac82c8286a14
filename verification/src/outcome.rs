//! Outcomes of cleanup runs, per candidate and per run, as the cleanup
//! history presents them.
use vstd::prelude::*;
use crate::model::{CleanupBatch, CleanupRecord, TargetStatus};
use crate::reasons::{manual_restore_pending, spec_manual_restore_pending};

verus! {

/// How a cleanup run, or one candidate in it, ended.
#[derive(Clone, Copy, Debug, PartialEq, Eq, Structural)]
pub enum Outcome {
    Restored,
    Moved,
    PartlyRestored,
    Partial,
    Interrupted,
    NeedsAttention,
    NotStarted,
}

/// A theme color role, resolved by the interface.
#[derive(Clone, Copy, Debug, PartialEq, Eq, Structural)]
pub enum Tone {
    Danger,
    Primary,
    Success,
    Muted,
}

/// The status pill of a cleanup run or candidate.
#[derive(Clone, Copy, Debug, PartialEq, Eq)]
pub struct StatusBadge {
    pub label: &'static str,
    pub tone: Tone,
}

pub open spec fn spec_needs_attention(o: Outcome) -> bool {
    o == Outcome::Partial || o == Outcome::Interrupted || o == Outcome::NeedsAttention
}

pub open spec fn spec_outcome_tone(o: Outcome) -> Tone {
    if spec_needs_attention(o) {
        Tone::Danger
    } else if o == Outcome::Restored || o == Outcome::PartlyRestored {
        Tone::Primary
    } else if o == Outcome::Moved {
        Tone::Success
    } else {
        Tone::Muted
    }
}

pub open spec fn spec_outcome_label(o: Outcome) -> Seq<char> {
    match o {
        Outcome::Restored => "Restored"@,
        Outcome::Moved => "Moved to Trash"@,
        Outcome::PartlyRestored => "Partially restored"@,
        Outcome::Partial => "Partially completed"@,
        Outcome::Interrupted => "Interrupted"@,
        Outcome::NeedsAttention => "Needs attention"@,
        Outcome::NotStarted => "Not started"@,
    }
}

pub open spec fn spec_outcome_description(o: Outcome) -> Seq<char> {
    match o {
        Outcome::Restored => "These sessions are available in Wake again."@,
        Outcome::Moved => "Session files were moved to the system trash."@,
        Outcome::PartlyRestored => "Some sessions have been restored to Wake."@,
        Outcome::Partial | Outcome::NeedsAttention => "Review the affected sessions below."@,
        Outcome::Interrupted =>
            "This cleanup was interrupted. Review the file details before continuing."@,
        Outcome::NotStarted => "No session files were moved."@,
    }
}

pub open spec fn spec_outcome_icon(o: Outcome) -> Seq<char> {
    match o {
        Outcome::Restored | Outcome::PartlyRestored => "icons/refresh-cw.svg"@,
        Outcome::Moved => "icons/check.svg"@,
        Outcome::Partial | Outcome::Interrupted | Outcome::NeedsAttention => "icons/info.svg"@,
        Outcome::NotStarted => "icons/brush-cleaning.svg"@,
    }
}

impl Outcome {
    /// The status name.
    pub fn label(self) -> (res: &'static str)
        ensures
            res@ == spec_outcome_label(self),
    {
        match self {
            Outcome::Restored => "Restored",
            Outcome::Moved => "Moved to Trash",
            Outcome::PartlyRestored => "Partially restored",
            Outcome::Partial => "Partially completed",
            Outcome::Interrupted => "Interrupted",
            Outcome::NeedsAttention => "Needs attention",
            Outcome::NotStarted => "Not started",
        }
    }

    /// The sentence under the status of a run.
    pub fn description(self) -> (res: &'static str)
        ensures
            res@ == spec_outcome_description(self),
    {
        match self {
            Outcome::Restored => "These sessions are available in Wake again.",
            Outcome::Moved => "Session files were moved to the system trash.",
            Outcome::PartlyRestored => "Some sessions have been restored to Wake.",
            Outcome::Partial | Outcome::NeedsAttention => "Review the affected sessions below.",
            Outcome::Interrupted => {
                "This cleanup was interrupted. Review the file details before continuing."
            },
            Outcome::NotStarted => "No session files were moved.",
        }
    }

    /// The icon asset of the status.
    pub fn icon(self) -> (res: &'static str)
        ensures
            res@ == spec_outcome_icon(self),
    {
        match self {
            Outcome::Restored | Outcome::PartlyRestored => "icons/refresh-cw.svg",
            Outcome::Moved => "icons/check.svg",
            Outcome::Partial | Outcome::Interrupted | Outcome::NeedsAttention => "icons/info.svg",
            Outcome::NotStarted => "icons/brush-cleaning.svg",
        }
    }

    /// The color role: danger for anything that needs attention.
    pub fn color(self) -> (res: Tone)
        ensures
            res == spec_outcome_tone(self),
    {
        if self.needs_attention() {
            Tone::Danger
        } else {
            match self {
                Outcome::Restored | Outcome::PartlyRestored => Tone::Primary,
                Outcome::Moved => Tone::Success,
                _ => Tone::Muted,
            }
        }
    }

    /// Whether the user should look at this run.
    pub fn needs_attention(self) -> (res: bool)
        ensures
            res == spec_needs_attention(self),
    {
        match self {
            Outcome::Partial | Outcome::Interrupted | Outcome::NeedsAttention => true,
            _ => false,
        }
    }
}

/// Every target of the candidate was moved to the trash.
pub open spec fn all_moved(targets: Seq<TargetStatus>) -> bool {
    forall|i: int| 0 <= i < targets.len() ==> (#[trigger] targets[i]).spec_is_moved()
}

/// No target of the candidate was touched.
pub open spec fn all_pending(targets: Seq<TargetStatus>) -> bool {
    forall|i: int| 0 <= i < targets.len() ==> (#[trigger] targets[i]).spec_is_pending()
}

/// The outcome of one candidate from its flags and target progress.
pub open spec fn spec_record_outcome(
    restored: bool,
    indexed: bool,
    error: bool,
    targets: Seq<TargetStatus>,
) -> Outcome {
    if restored {
        Outcome::Restored
    } else if !error && indexed && all_moved(targets) {
        Outcome::Moved
    } else if !error && all_pending(targets) {
        Outcome::NotStarted
    } else {
        Outcome::NeedsAttention
    }
}

/// Every element of `states` is `x`.
pub open spec fn all_are(states: Seq<Outcome>, x: Outcome) -> bool {
    forall|i: int| 0 <= i < states.len() ==> states[i] == x
}

/// The outcome of a run from the outcomes of its candidates.
pub open spec fn spec_batch_outcome(finished: bool, states: Seq<Outcome>, any_moved: bool) -> Outcome {
    if states.len() == 0 {
        Outcome::NotStarted
    } else if all_are(states, Outcome::Restored) {
        Outcome::Restored
    } else if !finished {
        Outcome::Interrupted
    } else if states.contains(Outcome::NeedsAttention) {
        if any_moved || states.contains(Outcome::Restored) {
            Outcome::Partial
        } else {
            Outcome::NeedsAttention
        }
    } else if all_are(states, Outcome::NotStarted) {
        Outcome::NotStarted
    } else if states.contains(Outcome::NotStarted) {
        Outcome::Partial
    } else if states.contains(Outcome::Restored) {
        Outcome::PartlyRestored
    } else {
        Outcome::Moved
    }
}

fn all_targets_moved(targets: &[TargetStatus]) -> (res: bool)
    ensures
        res == all_moved(targets@),
{
    let mut i: usize = 0;
    while i < targets.len()
        invariant
            i <= targets.len(),
            forall|k: int| 0 <= k < i ==> (#[trigger] targets@[k]).spec_is_moved(),
        decreases targets.len() - i,
    {
        if !targets[i].is_moved() {
            return false;
        }
        i += 1;
    }
    true
}

fn all_targets_pending(targets: &[TargetStatus]) -> (res: bool)
    ensures
        res == all_pending(targets@),
{
    let mut i: usize = 0;
    while i < targets.len()
        invariant
            i <= targets.len(),
            forall|k: int| 0 <= k < i ==> (#[trigger] targets@[k]).spec_is_pending(),
        decreases targets.len() - i,
    {
        if !targets[i].is_pending() {
            return false;
        }
        i += 1;
    }
    true
}

fn any_target_moved(targets: &[TargetStatus]) -> (res: bool)
    ensures
        res == exists|k: int| 0 <= k < targets@.len() && (#[trigger] targets@[k]).spec_is_moved(),
{
    let mut i: usize = 0;
    while i < targets.len()
        invariant
            i <= targets.len(),
            forall|k: int| 0 <= k < i ==> !(#[trigger] targets@[k]).spec_is_moved(),
        decreases targets.len() - i,
    {
        if targets[i].is_moved() {
            return true;
        }
        i += 1;
    }
    false
}

/// The outcome of one candidate. `error` says whether an error other than a
/// pending manual restore was recorded.
pub fn record_outcome(restored: bool, indexed: bool, error: bool, targets: &[TargetStatus]) -> (res:
    Outcome)
    ensures
        res == spec_record_outcome(restored, indexed, error, targets@),
{
    if restored {
        Outcome::Restored
    } else if !error && indexed && all_targets_moved(targets) {
        Outcome::Moved
    } else if !error && all_targets_pending(targets) {
        Outcome::NotStarted
    } else {
        Outcome::NeedsAttention
    }
}

/// The recorded error counts against a record unless it only waits on a
/// manual restore.
pub open spec fn spec_record_error(record: CleanupRecord) -> bool {
    match record.error {
        Some(e) => !spec_manual_restore_pending(e@),
        None => false,
    }
}

pub open spec fn spec_outcome(record: CleanupRecord) -> Outcome {
    spec_record_outcome(record.restored, record.indexed, spec_record_error(record), record.targets@)
}

fn record_error(record: &CleanupRecord) -> (res: bool)
    ensures
        res == spec_record_error(*record),
{
    match &record.error {
        Some(e) => !manual_restore_pending(e.as_str()),
        None => false,
    }
}

/// The outcome of one candidate of a run.
pub fn outcome(record: &CleanupRecord) -> (res: Outcome)
    ensures
        res == spec_outcome(*record),
{
    record_outcome(record.restored, record.indexed, record_error(record), record.targets.as_slice())
}

fn all_equal(states: &[Outcome], wanted: Outcome) -> (res: bool)
    ensures
        res == all_are(states@, wanted),
{
    let mut i: usize = 0;
    while i < states.len()
        invariant
            i <= states.len(),
            forall|k: int| 0 <= k < i ==> states@[k] == wanted,
        decreases states.len() - i,
    {
        if states[i] != wanted {
            return false;
        }
        i += 1;
    }
    true
}

fn contains_state(states: &[Outcome], wanted: Outcome) -> (res: bool)
    ensures
        res == states@.contains(wanted),
{
    let mut i: usize = 0;
    while i < states.len()
        invariant
            i <= states.len(),
            forall|k: int| 0 <= k < i ==> states@[k] != wanted,
        decreases states.len() - i,
    {
        if states[i] == wanted {
            return true;
        }
        i += 1;
    }
    false
}

/// The outcome of a run: `finished` says the run reached its end,
/// `any_moved` that some file reached the trash.
pub fn batch_outcome(finished: bool, states: &[Outcome], any_moved: bool) -> (res: Outcome)
    ensures
        res == spec_batch_outcome(finished, states@, any_moved),
{
    if states.len() == 0 {
        return Outcome::NotStarted;
    }
    if all_equal(states, Outcome::Restored) {
        return Outcome::Restored;
    }
    if !finished {
        return Outcome::Interrupted;
    }
    if contains_state(states, Outcome::NeedsAttention) {
        return if any_moved || contains_state(states, Outcome::Restored) {
            Outcome::Partial
        } else {
            Outcome::NeedsAttention
        };
    }
    if all_equal(states, Outcome::NotStarted) {
        return Outcome::NotStarted;
    }
    if contains_state(states, Outcome::NotStarted) {
        return Outcome::Partial;
    }
    if contains_state(states, Outcome::Restored) {
        return Outcome::PartlyRestored;
    }
    Outcome::Moved
}

/// Some target of some record of the run was moved to the trash.
pub open spec fn spec_batch_any_moved(records: Seq<CleanupRecord>) -> bool {
    exists|i: int, k: int|
        0 <= i < records.len() && 0 <= k < records[i].targets@.len()
            && (#[trigger] records[i].targets@[k]).spec_is_moved()
}

pub open spec fn spec_batch_status(batch: CleanupBatch) -> Outcome {
    spec_batch_outcome(
        batch.finished,
        batch.records@.map_values(|r: CleanupRecord| spec_outcome(r)),
        spec_batch_any_moved(batch.records@),
    )
}

/// The outcome of a whole run.
pub fn batch_status(batch: &CleanupBatch) -> (res: Outcome)
    ensures
        res == spec_batch_status(*batch),
{
    let mut states: Vec<Outcome> = Vec::new();
    let mut any_moved = false;
    let mut i: usize = 0;
    while i < batch.records.len()
        invariant
            i <= batch.records.len(),
            states@ == batch.records@.take(i as int).map_values(|r: CleanupRecord| spec_outcome(r)),
            any_moved == exists|j: int, k: int|
                0 <= j < i && 0 <= k < batch.records@[j].targets@.len()
                    && (#[trigger] batch.records@[j].targets@[k]).spec_is_moved(),
        decreases batch.records.len() - i,
    {
        let o = outcome(&batch.records[i]);
        states.push(o);
        let moved_here = any_target_moved(batch.records[i].targets.as_slice());
        proof {
            assert(batch.records@.take(i + 1 as int) =~= batch.records@.take(i as int).push(
                batch.records@[i as int],
            ));
        }
        any_moved = any_moved || moved_here;
        i += 1;
    }
    proof {
        assert(batch.records@.take(batch.records@.len() as int) =~= batch.records@);
    }
    batch_outcome(batch.finished, states.as_slice(), any_moved)
}

/// Total size of the run's candidates.
pub open spec fn spec_batch_size(records: Seq<CleanupRecord>) -> int
    decreases records.len(),
{
    if records.len() == 0 {
        0
    } else {
        spec_batch_size(records.drop_last()) + records.last().candidate.bytes
    }
}

/// Number of sessions the run covered, nested sessions included.
pub open spec fn spec_batch_sessions(records: Seq<CleanupRecord>) -> int
    decreases records.len(),
{
    if records.len() == 0 {
        0
    } else {
        spec_batch_sessions(records.drop_last()) + records.last().candidate.sessions@.len()
    }
}

proof fn lemma_batch_size_prefix(records: Seq<CleanupRecord>, i: int)
    requires
        0 <= i <= records.len(),
    ensures
        spec_batch_size(records.take(i)) <= spec_batch_size(records),
        spec_batch_size(records.take(i)) >= 0,
    decreases records.len() - i,
{
    if i < records.len() {
        lemma_batch_size_prefix(records, i + 1);
        assert(records.take(i + 1).drop_last() =~= records.take(i));
    } else {
        assert(records.take(i) =~= records);
    }
    lemma_batch_size_nonneg(records.take(i));
}

proof fn lemma_batch_size_nonneg(records: Seq<CleanupRecord>)
    ensures
        spec_batch_size(records) >= 0,
    decreases records.len(),
{
    if records.len() > 0 {
        lemma_batch_size_nonneg(records.drop_last());
    }
}

proof fn lemma_batch_sessions_prefix(records: Seq<CleanupRecord>, i: int)
    requires
        0 <= i <= records.len(),
    ensures
        0 <= spec_batch_sessions(records.take(i)) <= spec_batch_sessions(records),
    decreases records.len() - i,
{
    if i < records.len() {
        lemma_batch_sessions_prefix(records, i + 1);
        assert(records.take(i + 1).drop_last() =~= records.take(i));
    } else {
        assert(records.take(i) =~= records);
    }
    lemma_batch_sessions_nonneg(records.take(i));
}

proof fn lemma_batch_sessions_nonneg(records: Seq<CleanupRecord>)
    ensures
        spec_batch_sessions(records) >= 0,
    decreases records.len(),
{
    if records.len() > 0 {
        lemma_batch_sessions_nonneg(records.drop_last());
    }
}

/// Total size of the run's candidates, in bytes.
pub fn batch_size(batch: &CleanupBatch) -> (res: u64)
    requires
        spec_batch_size(batch.records@) <= u64::MAX,
    ensures
        res == spec_batch_size(batch.records@),
{
    let mut total: u64 = 0;
    let mut i: usize = 0;
    while i < batch.records.len()
        invariant
            i <= batch.records.len(),
            spec_batch_size(batch.records@) <= u64::MAX,
            total == spec_batch_size(batch.records@.take(i as int)),
        decreases batch.records.len() - i,
    {
        proof {
            assert(batch.records@.take(i + 1 as int).drop_last() =~= batch.records@.take(i as int));
            lemma_batch_size_prefix(batch.records@, i + 1);
        }
        total = total + batch.records[i].candidate.bytes;
        i += 1;
    }
    proof {
        assert(batch.records@.take(batch.records@.len() as int) =~= batch.records@);
    }
    total
}

/// Number of sessions the run covered, nested sessions included.
pub fn batch_sessions(batch: &CleanupBatch) -> (res: usize)
    requires
        spec_batch_sessions(batch.records@) <= usize::MAX,
    ensures
        res == spec_batch_sessions(batch.records@),
{
    let mut total: usize = 0;
    let mut i: usize = 0;
    while i < batch.records.len()
        invariant
            i <= batch.records.len(),
            spec_batch_sessions(batch.records@) <= usize::MAX,
            total == spec_batch_sessions(batch.records@.take(i as int)),
        decreases batch.records.len() - i,
    {
        proof {
            assert(batch.records@.take(i + 1 as int).drop_last() =~= batch.records@.take(i as int));
            lemma_batch_sessions_prefix(batch.records@, i + 1);
        }
        total = total + batch.records[i].candidate.sessions.len();
        i += 1;
    }
    proof {
        assert(batch.records@.take(batch.records@.len() as int) =~= batch.records@);
    }
    total
}

/// The status pill of an outcome.
pub fn history_status(status: Outcome) -> (res: StatusBadge)
    ensures
        res.label@ == spec_outcome_label(status),
        res.tone == spec_outcome_tone(status),
{
    StatusBadge { label: status.label(), tone: status.color() }
}

} // verus!

verus! {

/// A run's outcome depends only on which candidate outcomes occur in it,
/// not on their order or how often each occurs.
pub proof fn law_batch_outcome_depends_on_occurring_states(
    finished: bool,
    a: Seq<Outcome>,
    b: Seq<Outcome>,
    any_moved: bool,
)
    requires
        a.to_set() == b.to_set(),
    ensures
        spec_batch_outcome(finished, a, any_moved) == spec_batch_outcome(finished, b, any_moved),
{
    assert forall|x: Outcome| a.contains(x) == b.contains(x) by {
        assert(a.to_set().contains(x) == a.contains(x));
        assert(b.to_set().contains(x) == b.contains(x));
    }
    assert(a.len() == 0 <==> b.len() == 0) by {
        if a.len() > 0 {
            assert(a.contains(a[0]));
        }
        if b.len() > 0 {
            assert(b.contains(b[0]));
        }
    }
    assert forall|x: Outcome| #[trigger] all_are(a, x) == all_are(b, x) by {
        if all_are(a, x) {
            assert forall|i: int| 0 <= i < b.len() implies b[i] == x by {
                assert(b.contains(b[i]));
                assert(a.contains(b[i]));
            }
        }
        if all_are(b, x) {
            assert forall|i: int| 0 <= i < a.len() implies a[i] == x by {
                assert(a.contains(a[i]));
                assert(b.contains(a[i]));
            }
        }
    }
}

/// A run in which some candidate needs attention is itself flagged as
/// needing attention, whether it finished or not.
pub proof fn law_attention_is_never_hidden(finished: bool, states: Seq<Outcome>, any_moved: bool)
    requires
        states.contains(Outcome::NeedsAttention),
    ensures
        spec_needs_attention(spec_batch_outcome(finished, states, any_moved)),
{
    let i = choose|i: int| 0 <= i < states.len() && states[i] == Outcome::NeedsAttention;
    assert(states[i] != Outcome::Restored);
}

/// A run that stopped early is reported as interrupted unless every
/// candidate has since been restored.
pub proof fn law_unfinished_runs_are_interrupted(states: Seq<Outcome>, any_moved: bool)
    requires
        states.len() > 0,
        states.contains(Outcome::Moved) || states.contains(Outcome::NeedsAttention)
            || states.contains(Outcome::NotStarted),
    ensures
        spec_batch_outcome(false, states, any_moved) == Outcome::Interrupted,
{
}

/// A candidate counts as moved only when every target reached the trash, the
/// index was updated and no error was recorded; restoring it overrides
/// everything else.
pub proof fn law_moved_means_complete(
    restored: bool,
    indexed: bool,
    error: bool,
    targets: Seq<TargetStatus>,
)
    ensures
        restored ==> spec_record_outcome(restored, indexed, error, targets) == Outcome::Restored,
        spec_record_outcome(restored, indexed, error, targets) == Outcome::Moved ==> !restored
            && indexed && !error && all_moved(targets),
        error && !restored ==> spec_record_outcome(restored, indexed, error, targets)
            == Outcome::NeedsAttention,
{
}

} // verus!

verus! {

/// A finished run in which every candidate was moved reads as moved;
/// "partly restored" is reported only for a run in which some candidate
/// was restored and some was not, and "restored" only when every candidate
/// was restored.
pub proof fn law_moved_and_restored_runs(finished: bool, states: Seq<Outcome>, any_moved: bool)
    ensures
        states.len() > 0 && (forall|i: int| 0 <= i < states.len() ==> states[i] == Outcome::Moved)
            ==> spec_batch_outcome(true, states, any_moved) == Outcome::Moved,
        spec_batch_outcome(finished, states, any_moved) == Outcome::PartlyRestored ==> states.contains(
            Outcome::Restored,
        ) && exists|i: int| 0 <= i < states.len() && states[i] != Outcome::Restored,
        spec_batch_outcome(finished, states, any_moved) == Outcome::Restored ==> states.len() > 0
            && forall|i: int| 0 <= i < states.len() ==> states[i] == Outcome::Restored,
        spec_batch_outcome(finished, states, any_moved) == Outcome::Moved ==> finished
            && !states.contains(Outcome::Restored) && !states.contains(Outcome::NotStarted)
            && !states.contains(Outcome::NeedsAttention),
{
    if states.len() > 0 && (forall|i: int| 0 <= i < states.len() ==> states[i] == Outcome::Moved) {
        assert(states[0] == Outcome::Moved);
        assert(!states.contains(Outcome::NeedsAttention));
        assert(!states.contains(Outcome::NotStarted));
        assert(!states.contains(Outcome::Restored));
    }
}

} // verus!
