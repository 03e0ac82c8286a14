//! Bookkeeping of index scans. At most one scan runs at a time; a rescan
//! asked for while one runs is queued once and started when it ends, and a
//! refresh the user started is answered with one notice when it ends.
//! The caller runs the scans and reports their progress.
use vstd::prelude::*;

verus! {

/// Whether a scan runs, whether the user asked for it, and whether another
/// must follow it.
#[derive(Clone, Copy, Debug, PartialEq, Eq, Structural)]
pub struct ScanState {
    pub scanning: bool,
    /// The running scan is a refresh the user started.
    pub refreshing: bool,
    /// A rescan was asked for while a scan ran.
    pub pending_rescan: bool,
}

/// The notice that ends a refresh.
#[derive(Clone, Debug)]
pub enum RefreshNotice {
    Refreshed,
    Failed(String),
}

/// What the caller does after a progress report.
#[derive(Clone, Debug)]
pub struct ProgressReaction {
    pub notice: Option<RefreshNotice>,
    /// Start an incremental scan.
    pub start_scan: bool,
    /// Reload the open full page and run the memory syncs queued while
    /// scanning.
    pub settle: bool,
}

/// The state after asking for an incremental scan, and whether one starts.
pub open spec fn spec_kick(s: ScanState) -> (ScanState, bool) {
    if s.scanning {
        (ScanState { pending_rescan: true, ..s }, false)
    } else {
        (ScanState { scanning: true, refreshing: s.refreshing, pending_rescan: s.pending_rescan }, true)
    }
}

/// The state after a progress report saying whether the scan still runs.
pub open spec fn spec_after_progress(s: ScanState, still_scanning: bool) -> (ScanState, bool) {
    let refreshing = if !still_scanning && s.refreshing {
        false
    } else {
        s.refreshing
    };
    let reported = ScanState { scanning: still_scanning, refreshing, pending_rescan: s.pending_rescan };
    if !still_scanning && s.pending_rescan {
        spec_kick(ScanState { pending_rescan: false, ..reported })
    } else {
        (reported, false)
    }
}

/// The state after the user asks for a full refresh, and whether it starts.
pub open spec fn spec_refresh(s: ScanState) -> (ScanState, bool) {
    if s.scanning {
        (s, false)
    } else {
        (ScanState { scanning: true, refreshing: true, pending_rescan: s.pending_rescan }, true)
    }
}

impl ScanState {
    pub fn idle() -> (res: Self)
        ensures
            !res.scanning && !res.refreshing && !res.pending_rescan,
    {
        ScanState { scanning: false, refreshing: false, pending_rescan: false }
    }

    /// Asks for an incremental scan: starts one when none runs, queues one
    /// otherwise. Returns whether a scan starts now.
    pub fn kick_incremental_scan(&mut self) -> (start: bool)
        ensures
            (*final(self), start) == spec_kick(*old(self)),
    {
        if self.scanning {
            self.pending_rescan = true;
            return false;
        }
        self.scanning = true;
        true
    }

    /// A full refresh asked for by the user; ignored while a scan runs.
    /// Returns whether it starts (with the remote hosts' sync).
    pub fn refresh_sessions(&mut self) -> (start: bool)
        ensures
            (*final(self), start) == spec_refresh(*old(self)),
    {
        if self.scanning {
            return false;
        }
        self.scanning = true;
        self.refreshing = true;
        true
    }

    /// Takes in a progress report: whether the scan still runs and the
    /// error it ended with.
    pub fn on_progress(&mut self, still_scanning: bool, error: Option<String>) -> (res:
        ProgressReaction)
        ensures
            (*final(self), res.start_scan) == spec_after_progress(*old(self), still_scanning),
            res.settle == !final(self).scanning,
            match res.notice {
                Some(RefreshNotice::Refreshed) => !still_scanning && old(self).refreshing
                    && error is None,
                Some(RefreshNotice::Failed(e)) => !still_scanning && old(self).refreshing
                    && error == Some(e),
                None => still_scanning || !old(self).refreshing,
            },
    {
        let notice = if !still_scanning && self.refreshing {
            self.refreshing = false;
            Some(
                match error {
                    None => RefreshNotice::Refreshed,
                    Some(e) => RefreshNotice::Failed(e),
                },
            )
        } else {
            None
        };
        self.scanning = still_scanning;
        let mut start_scan = false;
        if !self.scanning && self.pending_rescan {
            self.pending_rescan = false;
            start_scan = self.kick_incremental_scan();
        }
        ProgressReaction { notice, start_scan, settle: !self.scanning }
    }
}

/// A scan starts only when none runs, and afterwards one runs.
pub proof fn law_one_scan_at_a_time(s: ScanState, still_scanning: bool)
    ensures
        spec_kick(s).1 ==> !s.scanning && spec_kick(s).0.scanning,
        spec_refresh(s).1 ==> !s.scanning && spec_refresh(s).0.scanning,
        spec_after_progress(s, still_scanning).1 ==> !still_scanning && spec_after_progress(
            s,
            still_scanning,
        ).0.scanning,
        spec_kick(s).0.scanning && spec_refresh(s).0.scanning,
{
}

/// Rescans asked for during a scan are queued once, whatever their number,
/// and the queued rescan starts when the scan ends.
pub proof fn law_queued_rescan_runs_once(s: ScanState)
    requires
        s.scanning,
    ensures
        spec_kick(spec_kick(s).0) == spec_kick(s),
        !spec_kick(s).1,
        spec_after_progress(spec_kick(s).0, false).1,
        !spec_after_progress(spec_kick(s).0, false).0.pending_rescan,
{
}

/// A refresh ends with exactly one notice: the report that ends it clears
/// the refresh, so no later report repeats the notice.
pub proof fn law_refresh_notice_once(s: ScanState, next_scanning: bool)
    requires
        s.refreshing,
    ensures
        !spec_after_progress(s, false).0.refreshing,
        !spec_after_progress(spec_after_progress(s, false).0, next_scanning).0.refreshing,
{
}

} // verus!
