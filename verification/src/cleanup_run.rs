//! The cleanup page: which sessions it lists and which are selected, the
//! reader it sets aside while open, and the steps of a cleanup run
//! (review, moving files, checking restored files). The caller talks to
//! the cleanup engine and reports each answer here.
use vstd::prelude::*;
use vstd::string::StrSliceExecFns;
use crate::cleanup::{has_filters, spec_has_filters, CleanupInventory, CleanupOptions};
use crate::detail::DetailState;
use crate::model::{CleanupBatch, CleanupCandidate, CleanupRecord, SessionMeta, UnavailableSession};
use crate::reasons::{manual_restore_pending, spec_manual_restore_pending};

verus! {

/// A row of the cleanup list.
#[derive(Clone, Debug)]
pub enum CleanupEntry {
    Available(CleanupCandidate),
    Unavailable(UnavailableSession),
}

impl CleanupEntry {
    pub open spec fn spec_session(self) -> SessionMeta {
        match self {
            CleanupEntry::Available(c) => c.root,
            CleanupEntry::Unavailable(u) => u.session,
        }
    }

    pub open spec fn spec_updated_at(self) -> i64 {
        match self {
            CleanupEntry::Available(c) => c.updated_at,
            CleanupEntry::Unavailable(u) => u.updated_at,
        }
    }

    /// The session the row stands for.
    pub fn session(&self) -> (res: &SessionMeta)
        ensures
            *res == self.spec_session(),
    {
        match self {
            CleanupEntry::Available(c) => &c.root,
            CleanupEntry::Unavailable(u) => &u.session,
        }
    }

    /// The candidate of a row that can be cleaned up.
    pub fn candidate(&self) -> (res: Option<&CleanupCandidate>)
        ensures
            match self {
                CleanupEntry::Available(c) => res == Some(c),
                CleanupEntry::Unavailable(_) => res is None,
            },
    {
        match self {
            CleanupEntry::Available(c) => Some(c),
            CleanupEntry::Unavailable(_) => None,
        }
    }

    pub fn updated_at(&self) -> (res: i64)
        ensures
            res == self.spec_updated_at(),
    {
        match self {
            CleanupEntry::Available(c) => c.updated_at,
            CleanupEntry::Unavailable(u) => u.updated_at,
        }
    }
}

/// The state of the cleanup page.
pub struct CleanupState {
    pub open: bool,
    pub options: CleanupOptions,
    pub inventory: CleanupInventory,
    /// The rows shown: the inventory filtered and ordered by the options.
    pub shown: Vec<CleanupEntry>,
    /// Keys of the selected candidates, each once.
    pub selected: Vec<String>,
    /// The row whose session is previewed.
    pub focus: Option<String>,
    pub preview_open: bool,
    /// The reader of the session list, set aside while the page is open.
    pub saved_detail: Option<DetailState>,
    /// The lowered text typed in the source search of the filter panel.
    pub filter_query: String,
    /// The time the inventory was read, in Unix milliseconds.
    pub now: i64,
    pub loading: bool,
    /// A review, run or check is under way.
    pub busy: bool,
    /// Files are being moved.
    pub executing: bool,
    pub progress: usize,
    pub progress_total: usize,
    /// The user asked to stop the review or run.
    pub cancel_requested: bool,
    pub error: Option<String>,
    /// The run shown in detail.
    pub result: Option<CleanupBatch>,
    /// Past runs, newest first.
    pub history: Vec<CleanupBatch>,
    pub history_open: bool,
    /// Records whose file details are disclosed, by root key.
    pub expanded_results: Vec<String>,
    /// The session list changed under a run; reload once the history is left.
    pub refresh_after_history: bool,
}

/// `key` is one of `keys`.
pub open spec fn lists_key(keys: Seq<String>, key: Seq<char>) -> bool {
    exists|i: int| 0 <= i < keys.len() && #[trigger] keys[i]@ == key
}

/// No key occurs twice.
pub open spec fn distinct_keys(keys: Seq<String>) -> bool {
    forall|i: int, j: int| 0 <= i < j < keys.len() ==> #[trigger] keys[i]@ != #[trigger] keys[j]@
}

/// Some row of `shown` is the candidate with root key `key`.
pub open spec fn shows_candidate(shown: Seq<CleanupEntry>, key: Seq<char>) -> bool {
    exists|i: int|
        0 <= i < shown.len() && (#[trigger] shown[i] matches CleanupEntry::Available(c)
            && c.root.key@ == key)
}

/// Some row of `shown` stands for session `key`.
pub open spec fn shows_session(shown: Seq<CleanupEntry>, key: Seq<char>) -> bool {
    exists|i: int| 0 <= i < shown.len() && (#[trigger] shown[i]).spec_session().key@ == key
}

/// The selected candidates of `shown`, in list order.
pub open spec fn chosen_of(shown: Seq<CleanupEntry>, selected: Seq<String>) -> Seq<CleanupCandidate>
    decreases shown.len(),
{
    if shown.len() == 0 {
        Seq::empty()
    } else {
        let prev = chosen_of(shown.drop_last(), selected);
        match shown.last() {
            CleanupEntry::Available(c) => if lists_key(selected, c.root.key@) {
                prev.push(c)
            } else {
                prev
            },
            CleanupEntry::Unavailable(_) => prev,
        }
    }
}

/// What opening or closing the page did.
#[derive(Clone, Copy, Debug, PartialEq, Eq, Structural)]
pub enum CleanupToggle {
    /// The page closed and the list's reader came back.
    Left,
    /// The page opened; the inventory is to be read unless a run is busy.
    Entered { reload: bool },
}

pub(crate) fn key_listed_in(keys: &Vec<String>, key: &String) -> (res: bool)
    ensures
        res == lists_key(keys@, key@),
{
    let mut i: usize = 0;
    while i < keys.len()
        invariant
            i <= keys.len(),
            forall|k: int| 0 <= k < i ==> #[trigger] keys@[k]@ != key@,
        decreases keys.len() - i,
    {
        if keys[i] == *key {
            return true;
        }
        i += 1;
    }
    false
}

/// `keys` without `key`, in order.
pub(crate) fn drop_key(keys: &Vec<String>, key: &String) -> (res: Vec<String>)
    ensures
        forall|k: Seq<char>|
            #[trigger] lists_key(res@, k) == (k != key@ && lists_key(keys@, k)),
        distinct_keys(keys@) ==> distinct_keys(res@),
{
    let mut kept: Vec<String> = Vec::new();
    let mut i: usize = 0;
    while i < keys.len()
        invariant
            i <= keys.len(),
            distinct_keys(keys@) ==> distinct_keys(kept@),
            forall|k: Seq<char>|
                #[trigger] lists_key(kept@, k) == (k != key@ && lists_key(keys@.take(i as int), k)),
        decreases keys.len() - i,
    {
        let ghost before = kept@;
        let ghost item = keys@[i as int];
        proof {
            let t = keys@.take(i + 1 as int);
            assert forall|k: Seq<char>| #[trigger] lists_key(t, k) == (lists_key(
                keys@.take(i as int),
                k,
            ) || item@ == k) by {
                if lists_key(t, k) {
                    let j = choose|j: int| 0 <= j < t.len() && #[trigger] t[j]@ == k;
                    if j < i {
                        assert(keys@.take(i as int)[j]@ == k);
                    }
                }
                if lists_key(keys@.take(i as int), k) {
                    let j = choose|j: int| 0 <= j < i && #[trigger] keys@.take(i as int)[j]@ == k;
                    assert(t[j]@ == k);
                }
                if item@ == k {
                    assert(t[i as int]@ == k);
                }
            }
        }
        if keys[i] != *key {
            kept.push(keys[i].clone());
            proof {
                assert forall|k: Seq<char>| #[trigger] lists_key(kept@, k) == (lists_key(before, k)
                    || item@ == k) by {
                    if lists_key(kept@, k) {
                        let j = choose|j: int| 0 <= j < kept@.len() && #[trigger] kept@[j]@ == k;
                        if j < before.len() {
                            assert(before[j]@ == k);
                        }
                    }
                    if lists_key(before, k) {
                        let j = choose|j: int| 0 <= j < before.len() && #[trigger] before[j]@ == k;
                        assert(kept@[j]@ == k);
                    }
                    if item@ == k {
                        assert(kept@[before.len() as int]@ == k);
                    }
                }
                if distinct_keys(keys@) {
                    assert forall|a: int, b: int| 0 <= a < b < kept@.len() implies #[trigger] kept@[a]@
                        != #[trigger] kept@[b]@ by {
                        if b == kept@.len() - 1 {
                            assert(kept@[a] == before[a]);
                            assert(lists_key(before, before[a]@));
                            if before[a]@ == item@ {
                                let j = choose|j: int|
                                    0 <= j < i && #[trigger] keys@.take(i as int)[j]@ == before[a]@;
                                assert(keys@[j]@ == keys@[i as int]@);
                            }
                        } else {
                            assert(kept@[a] == before[a] && kept@[b] == before[b]);
                        }
                    }
                }
            }
        }
        i += 1;
    }
    assert(keys@.take(i as int) =~= keys@);
    kept
}

/// `keys` with `key` added at the end, unless it is listed.
pub(crate) fn add_key(keys: &mut Vec<String>, key: &String)
    ensures
        forall|k: Seq<char>|
            #[trigger] lists_key(final(keys)@, k) == (k == key@ || lists_key(old(keys)@, k)),
        distinct_keys(old(keys)@) ==> distinct_keys(final(keys)@),
{
    if key_listed_in(keys, key) {
        return;
    }
    let ghost before = keys@;
    keys.push(key.clone());
    proof {
        assert forall|k: Seq<char>| #[trigger] lists_key(keys@, k) == (k == key@ || lists_key(
            before,
            k,
        )) by {
            if lists_key(keys@, k) {
                let j = choose|j: int| 0 <= j < keys@.len() && #[trigger] keys@[j]@ == k;
                if j < before.len() {
                    assert(before[j]@ == k);
                }
            }
            if lists_key(before, k) {
                let j = choose|j: int| 0 <= j < before.len() && #[trigger] before[j]@ == k;
                assert(keys@[j]@ == k);
            }
            if k == key@ {
                assert(keys@[before.len() as int]@ == k);
            }
        }
        if distinct_keys(before) {
            assert forall|a: int, b: int| 0 <= a < b < keys@.len() implies #[trigger] keys@[a]@
                != #[trigger] keys@[b]@ by {
                if b == keys@.len() - 1 {
                    assert(keys@[a] == before[a]);
                    assert(lists_key(before, before[a]@));
                } else {
                    assert(keys@[a] == before[a] && keys@[b] == before[b]);
                }
            }
        }
    }
}

fn candidate_shown(shown: &Vec<CleanupEntry>, key: &String) -> (res: bool)
    ensures
        res == shows_candidate(shown@, key@),
{
    let mut i: usize = 0;
    while i < shown.len()
        invariant
            i <= shown.len(),
            forall|k: int|
                0 <= k < i ==> !(#[trigger] shown@[k] matches CleanupEntry::Available(c)
                    && c.root.key@ == key@),
        decreases shown.len() - i,
    {
        match &shown[i] {
            CleanupEntry::Available(c) => {
                if c.root.key == *key {
                    return true;
                }
            },
            CleanupEntry::Unavailable(_) => {},
        }
        i += 1;
    }
    false
}

fn session_shown(shown: &Vec<CleanupEntry>, key: &String) -> (res: bool)
    ensures
        res == shows_session(shown@, key@),
{
    let mut i: usize = 0;
    while i < shown.len()
        invariant
            i <= shown.len(),
            forall|k: int| 0 <= k < i ==> (#[trigger] shown@[k]).spec_session().key@ != key@,
        decreases shown.len() - i,
    {
        if shown[i].session().key == *key {
            return true;
        }
        i += 1;
    }
    false
}

impl CleanupState {
    /// A closed page with `options` and nothing read yet.
    pub fn new(options: CleanupOptions) -> (res: Self)
        ensures
            !res.open && !res.busy && !res.loading && !res.executing && !res.preview_open,
            !res.history_open && !res.refresh_after_history && !res.cancel_requested,
            res.shown@.len() == 0 && res.selected@.len() == 0 && res.history@.len() == 0,
            res.result is None && res.error is None && res.focus is None,
            res.saved_detail is None,
            res.options == options,
    {
        CleanupState {
            open: false,
            options,
            inventory: CleanupInventory { candidates: Vec::new(), unavailable: Vec::new() },
            shown: Vec::new(),
            selected: Vec::new(),
            focus: None,
            preview_open: false,
            saved_detail: None,
            filter_query: String::new(),
            now: 0,
            loading: false,
            busy: false,
            executing: false,
            progress: 0,
            progress_total: 0,
            cancel_requested: false,
            error: None,
            result: None,
            history: Vec::new(),
            history_open: false,
            expanded_results: Vec::new(),
            refresh_after_history: false,
        }
    }

    /// Closes the page: the list's reader comes back in place of the
    /// preview, and a review under way is asked to stop (moving files is
    /// never interrupted). Returns whether the page was open.
    pub fn leave(&mut self, detail: &mut Option<DetailState>) -> (left: bool)
        ensures
            left == old(self).open,
            (*final(self), *final(detail)) == spec_leave(*old(self), *old(detail)),
    {
        if !self.open {
            return false;
        }
        self.open = false;
        self.preview_open = false;
        if self.busy && !self.executing {
            self.cancel_requested = true;
        }
        let mut saved: Option<DetailState> = None;
        std::mem::swap(&mut saved, &mut self.saved_detail);
        *detail = saved;
        true
    }

    /// Opens or closes the page. Opening sets the list's reader aside and
    /// shows the list rather than a run.
    pub fn toggle(&mut self, detail: &mut Option<DetailState>) -> (res: CleanupToggle)
        ensures
            old(self).open ==> res == CleanupToggle::Left && (*final(self), *final(detail))
                == spec_leave(*old(self), *old(detail)),
            !old(self).open ==> res == (CleanupToggle::Entered { reload: !old(self).busy }) && (
            *final(self), *final(detail)) == spec_enter(*old(self), *old(detail)),
    {
        if self.open {
            self.leave(detail);
            return CleanupToggle::Left;
        }
        let mut current: Option<DetailState> = None;
        std::mem::swap(&mut current, detail);
        self.saved_detail = current;
        self.open = true;
        self.history_open = false;
        self.result = None;
        CleanupToggle::Entered { reload: !self.busy }
    }

    /// Starts reading the inventory at time `now`; nothing happens while a
    /// run is busy. Returns whether the inventory is to be read.
    pub fn begin_reload(&mut self, now: i64) -> (start: bool)
        ensures
            start == !old(self).busy,
            !start ==> *final(self) == *old(self),
            start ==> final(self).loading && final(self).selected@.len() == 0
                && final(self).error is None && final(self).now == now && final(self).shown
                == old(self).shown,
    {
        if self.busy {
            return false;
        }
        self.loading = true;
        self.selected = Vec::new();
        self.error = None;
        self.now = now;
        true
    }

    /// Takes in the inventory and history that were read, or why they
    /// could not be. Returns whether the rows must be filtered anew.
    pub fn finish_reload(&mut self, result: Result<(CleanupInventory, Vec<CleanupBatch>), String>) -> (apply: bool)
        ensures
            !final(self).loading,
            apply == (result is Ok),
            match result {
                Ok((inventory, history)) => final(self).inventory == inventory && final(self).history == history && final(self).error == old(self).error,
                Err(e) => final(self).error == Some(e) && final(self).inventory == old(self).inventory && final(self).history == old(self).history,
            },
            final(self).shown == old(self).shown,
            final(self).selected == old(self).selected,
    {
        self.loading = false;
        match result {
            Ok((inventory, history)) => {
                self.inventory = inventory;
                self.history = history;
                true
            },
            Err(e) => {
                self.error = Some(e);
                false
            },
        }
    }

    /// Shows `rows`, the inventory filtered and ordered by the options.
    /// With `clear` the selection starts over; otherwise it keeps the
    /// selected candidates still shown. The previewed row stays only while
    /// it is shown; without it an open page drops its preview and reader.
    pub fn apply_rows(&mut self, rows: Vec<CleanupEntry>, clear: bool, detail: &mut Option<DetailState>)
        ensures
            final(self).shown == rows,
            forall|k: Seq<char>|
                #[trigger] lists_key(final(self).selected@, k) == (!clear && lists_key(
                    old(self).selected@,
                    k,
                ) && shows_candidate(rows@, k)),
            distinct_keys(old(self).selected@) ==> distinct_keys(final(self).selected@),
            final(self).focus == match old(self).focus {
                Some(f) => if shows_session(rows@, f@) {
                    Some(f)
                } else {
                    None
                },
                None => None,
            },
            (old(self).open && final(self).focus is None) ==> !final(self).preview_open
                && *final(detail) is None,
            !(old(self).open && final(self).focus is None) ==> final(self).preview_open == old(self).preview_open && *final(detail) == *old(detail),
            final(self).open == old(self).open,
            final(self).busy == old(self).busy,
            clear ==> final(self).selected@.len() == 0,
            *final(self) == (CleanupState {
                shown: final(self).shown,
                selected: final(self).selected,
                focus: final(self).focus,
                preview_open: final(self).preview_open,
                ..*old(self)
            }),
    {
        let mut kept: Vec<String> = Vec::new();
        if !clear {
            let mut i: usize = 0;
            while i < self.selected.len()
                invariant
                    i <= self.selected.len(),
                    forall|k: Seq<char>|
                        #[trigger] lists_key(kept@, k) == (lists_key(self.selected@.take(i as int), k)
                            && shows_candidate(rows@, k)),
                    distinct_keys(self.selected@) ==> distinct_keys(kept@),
                    distinct_keys(self.selected@) ==> forall|a: int, b: int|
                        0 <= a < kept@.len() && i <= b < self.selected@.len() ==> #[trigger] kept@[a]@
                            != #[trigger] self.selected@[b]@,
                decreases self.selected.len() - i,
            {
                let key = &self.selected[i];
                proof {
                    let t = self.selected@.take(i + 1 as int);
                    assert forall|k: Seq<char>| #[trigger] lists_key(t, k) == (lists_key(
                        self.selected@.take(i as int),
                        k,
                    ) || key@ == k) by {
                        if lists_key(t, k) {
                            let j = choose|j: int| 0 <= j < t.len() && #[trigger] t[j]@ == k;
                            if j < i {
                                assert(self.selected@.take(i as int)[j]@ == k);
                            }
                        }
                        if lists_key(self.selected@.take(i as int), k) {
                            let j = choose|j: int|
                                0 <= j < i && #[trigger] self.selected@.take(i as int)[j]@ == k;
                            assert(t[j]@ == k);
                        }
                        if key@ == k {
                            assert(t[i as int]@ == k);
                        }
                    }
                }
                if candidate_shown(&rows, key) {
                    let ghost before = kept@;
                    kept.push(key.clone());
                    proof {
                        assert forall|k: Seq<char>| #[trigger] lists_key(kept@, k) == (lists_key(
                            before,
                            k,
                        ) || key@ == k) by {
                            if lists_key(kept@, k) {
                                let j = choose|j: int| 0 <= j < kept@.len() && #[trigger] kept@[j]@ == k;
                                if j < before.len() {
                                    assert(before[j]@ == k);
                                }
                            }
                            if lists_key(before, k) {
                                let j = choose|j: int| 0 <= j < before.len() && #[trigger] before[j]@ == k;
                                assert(kept@[j]@ == k);
                            }
                            if key@ == k {
                                assert(kept@[before.len() as int]@ == k);
                            }
                        }
                    }
                }
                i += 1;
            }
            assert(self.selected@.take(i as int) =~= self.selected@);
        } else {
            assert forall|k: Seq<char>| #[trigger] lists_key(kept@, k) == false by {}
        }
        let focus = match &self.focus {
            Some(f) => if session_shown(&rows, f) {
                Some(f.clone())
            } else {
                None
            },
            None => None,
        };
        self.selected = kept;
        self.focus = focus;
        self.shown = rows;
        if self.open && self.focus.is_none() {
            self.preview_open = false;
            *detail = None;
        }
    }
}

} // verus!

verus! {

impl CleanupState {
    /// The selected candidates, in list order.
    pub fn chosen(&self) -> (res: Vec<CleanupCandidate>)
        ensures
            res@.len() == chosen_of(self.shown@, self.selected@).len(),
            forall|i: int|
                0 <= i < res@.len() ==> (#[trigger] res@[i]).same(
                    chosen_of(self.shown@, self.selected@)[i],
                ),
    {
        let mut out: Vec<CleanupCandidate> = Vec::new();
        let mut i: usize = 0;
        while i < self.shown.len()
            invariant
                i <= self.shown.len(),
                out@.len() == chosen_of(self.shown@.take(i as int), self.selected@).len(),
                forall|k: int|
                    0 <= k < out@.len() ==> (#[trigger] out@[k]).same(
                        chosen_of(self.shown@.take(i as int), self.selected@)[k],
                    ),
            decreases self.shown.len() - i,
        {
            proof {
                let t = self.shown@.take(i + 1 as int);
                assert(t.drop_last() =~= self.shown@.take(i as int));
                assert(t.last() == self.shown@[i as int]);
            }
            match &self.shown[i] {
                CleanupEntry::Available(c) => {
                    if key_listed_in(&self.selected, &c.root.key) {
                        out.push(c.duplicate());
                    }
                },
                CleanupEntry::Unavailable(_) => {},
            }
            i += 1;
        }
        assert(self.shown@.take(i as int) =~= self.shown@);
        out
    }

    /// Checks or unchecks the row at `ix`; rows that cannot be cleaned up
    /// are never selected.
    pub fn select_row(&mut self, ix: usize, checked: bool)
        requires
            distinct_keys(old(self).selected@),
        ensures
            distinct_keys(final(self).selected@),
            final(self).shown == old(self).shown,
            match (if ix < old(self).shown@.len() {
                Some(old(self).shown@[ix as int])
            } else {
                None
            }) {
                Some(CleanupEntry::Available(c)) => forall|k: Seq<char>|
                    #[trigger] lists_key(final(self).selected@, k) == (if k == c.root.key@ {
                        checked
                    } else {
                        lists_key(old(self).selected@, k)
                    }),
                _ => final(self).selected == old(self).selected,
            },
    {
        if ix >= self.shown.len() {
            return;
        }
        let key = match &self.shown[ix] {
            CleanupEntry::Available(c) => c.root.key.clone(),
            CleanupEntry::Unavailable(_) => {
                return;
            },
        };
        let mut kept = drop_key(&self.selected, &key);
        if checked {
            add_key(&mut kept, &key);
        }
        self.selected = kept;
    }

    /// Selects every candidate shown, or none.
    pub fn select_all(&mut self, checked: bool)
        ensures
            distinct_keys(final(self).selected@),
            forall|k: Seq<char>|
                #[trigger] lists_key(final(self).selected@, k) == (checked && shows_candidate(
                    old(self).shown@,
                    k,
                )),
            final(self).shown == old(self).shown,
    {
        let mut keys: Vec<String> = Vec::new();
        if checked {
            let mut i: usize = 0;
            while i < self.shown.len()
                invariant
                    i <= self.shown.len(),
                    distinct_keys(keys@),
                    forall|k: Seq<char>|
                        #[trigger] lists_key(keys@, k) == shows_candidate(
                            self.shown@.take(i as int),
                            k,
                        ),
                decreases self.shown.len() - i,
            {
                proof {
                    let t = self.shown@.take(i + 1 as int);
                    assert forall|k: Seq<char>| #[trigger] shows_candidate(t, k) == (
                    shows_candidate(self.shown@.take(i as int), k) || (
                    self.shown@[i as int] matches CleanupEntry::Available(c) && c.root.key@ == k))
                        by {
                        if shows_candidate(t, k) {
                            let j = choose|j: int|
                                0 <= j < t.len() && (#[trigger] t[j] matches CleanupEntry::Available(
                                    c,
                                ) && c.root.key@ == k);
                            if j < i {
                                assert(self.shown@.take(i as int)[j] == t[j]);
                            }
                        }
                        if shows_candidate(self.shown@.take(i as int), k) {
                            let j = choose|j: int|
                                0 <= j < i && (#[trigger] self.shown@.take(
                                    i as int,
                                )[j] matches CleanupEntry::Available(c) && c.root.key@ == k);
                            assert(t[j] == self.shown@.take(i as int)[j]);
                        }
                        if self.shown@[i as int] matches CleanupEntry::Available(c) && c.root.key@
                            == k {
                            assert(t[i as int] == self.shown@[i as int]);
                        }
                    }
                }
                match &self.shown[i] {
                    CleanupEntry::Available(c) => {
                        if !key_listed_in(&keys, &c.root.key) {
                            let ghost before = keys@;
                            keys.push(c.root.key.clone());
                            proof {
                                assert forall|a: int, b: int|
                                    0 <= a < b < keys@.len() implies #[trigger] keys@[a]@
                                    != #[trigger] keys@[b]@ by {
                                    if b == keys@.len() - 1 {
                                        assert(keys@[a] == before[a]);
                                    } else {
                                        assert(keys@[a] == before[a] && keys@[b] == before[b]);
                                    }
                                }
                                assert forall|k: Seq<char>| #[trigger] lists_key(keys@, k) == (
                                lists_key(before, k) || c.root.key@ == k) by {
                                    if lists_key(keys@, k) {
                                        let j = choose|j: int|
                                            0 <= j < keys@.len() && #[trigger] keys@[j]@ == k;
                                        if j < before.len() {
                                            assert(before[j]@ == k);
                                        }
                                    }
                                    if lists_key(before, k) {
                                        let j = choose|j: int|
                                            0 <= j < before.len() && #[trigger] before[j]@ == k;
                                        assert(keys@[j]@ == k);
                                    }
                                    if c.root.key@ == k {
                                        assert(keys@[before.len() as int]@ == k);
                                    }
                                }
                            }
                        }
                    },
                    CleanupEntry::Unavailable(_) => {},
                }
                i += 1;
            }
            assert(self.shown@.take(i as int) =~= self.shown@);
        }
        self.selected = keys;
    }

    /// Clears the selection.
    pub fn clear_selection(&mut self)
        ensures
            final(self).selected@.len() == 0,
            final(self).shown == old(self).shown,
            final(self).busy == old(self).busy,
    {
        self.selected = Vec::new();
    }
}

} // verus!

verus! {

/// The keys of the sessions a run removed from the index: every session of
/// each record whose index update went through.
pub open spec fn removed_by(records: Seq<CleanupRecord>, key: Seq<char>) -> bool {
    exists|i: int, j: int|
        0 <= i < records.len() && records[i].indexed && 0 <= j < records[i].candidate.sessions@.len()
            && (#[trigger] records[i].candidate.sessions@[j]).key@ == key
}

/// The notice that ends a check of a past run.
#[derive(Clone, Copy, Debug, PartialEq, Eq, Structural)]
pub enum CheckNotice {
    /// Some sessions could not be updated; the errors are listed.
    SomeNotUpdated,
    /// Some sessions are back in the index; others still wait in the trash.
    SomeRestored,
    Restored,
    ListUpdated,
    /// Nothing is back yet: the files must be put back from the trash by hand.
    RestoreManually,
}

/// What follows a check.
#[derive(Clone, Copy, Debug, PartialEq, Eq, Structural)]
pub enum CheckFollowUp {
    Nothing,
    /// Scan the sources, where restored files reappear.
    Scan,
    /// Read the session list again.
    Refresh,
}

/// A record that failed for another reason than waiting on a manual restore.
pub open spec fn record_failed(r: CleanupRecord) -> bool {
    !r.restored && (r.error matches Some(e) && !spec_manual_restore_pending(e@))
}

pub open spec fn any_failed(records: Seq<CleanupRecord>) -> bool {
    exists|i: int| 0 <= i < records.len() && record_failed(#[trigger] records[i])
}

pub open spec fn any_restorable(records: Seq<CleanupRecord>) -> bool {
    exists|i: int| 0 <= i < records.len() && (#[trigger] records[i]).restorable
}

/// Every restorable record waits on a manual restore.
pub open spec fn restorable_wait_manually(records: Seq<CleanupRecord>) -> bool {
    forall|i: int|
        0 <= i < records.len() && (#[trigger] records[i]).restorable ==> (records[i].error matches Some(
            e,
        ) && spec_manual_restore_pending(e@))
}

/// The notice and next step after a check that asked the engine to
/// `verify_restored` files (else to retry the index updates) and got
/// `ok` back, for the records as they are now.
pub open spec fn spec_check_outcome(records: Seq<CleanupRecord>, verify_restored: bool, ok: bool) -> (
    Option<CheckNotice>,
    CheckFollowUp,
) {
    if ok {
        let notice = if any_failed(records) {
            CheckNotice::SomeNotUpdated
        } else if verify_restored && any_restorable(records) {
            CheckNotice::SomeRestored
        } else if verify_restored {
            CheckNotice::Restored
        } else {
            CheckNotice::ListUpdated
        };
        (
            Some(notice),
            if verify_restored {
                CheckFollowUp::Scan
            } else {
                CheckFollowUp::Refresh
            },
        )
    } else if verify_restored && any_restorable(records) && restorable_wait_manually(records) {
        (Some(CheckNotice::RestoreManually), CheckFollowUp::Nothing)
    } else {
        (None, CheckFollowUp::Nothing)
    }
}

fn failed_any(records: &Vec<CleanupRecord>) -> (res: bool)
    ensures
        res == any_failed(records@),
{
    let mut i: usize = 0;
    while i < records.len()
        invariant
            i <= records.len(),
            forall|k: int| 0 <= k < i ==> !record_failed(#[trigger] records@[k]),
        decreases records.len() - i,
    {
        let r = &records[i];
        let failed = !r.restored && match &r.error {
            Some(e) => !manual_restore_pending(e.as_str()),
            None => false,
        };
        if failed {
            return true;
        }
        i += 1;
    }
    false
}

fn restorable_any(records: &Vec<CleanupRecord>) -> (res: bool)
    ensures
        res == any_restorable(records@),
{
    let mut i: usize = 0;
    while i < records.len()
        invariant
            i <= records.len(),
            forall|k: int| 0 <= k < i ==> !(#[trigger] records@[k]).restorable,
        decreases records.len() - i,
    {
        if records[i].restorable {
            return true;
        }
        i += 1;
    }
    false
}

fn restorable_all_manual(records: &Vec<CleanupRecord>) -> (res: bool)
    ensures
        res == restorable_wait_manually(records@),
{
    let mut i: usize = 0;
    while i < records.len()
        invariant
            i <= records.len(),
            forall|k: int|
                0 <= k < i && (#[trigger] records@[k]).restorable ==> (records@[k].error matches Some(
                    e,
                ) && spec_manual_restore_pending(e@)),
        decreases records.len() - i,
    {
        let r = &records[i];
        if r.restorable {
            let manual = match &r.error {
                Some(e) => manual_restore_pending(e.as_str()),
                None => false,
            };
            if !manual {
                return false;
            }
        }
        i += 1;
    }
    true
}

/// The notice and next step after a check of `records`.
pub fn check_outcome(records: &Vec<CleanupRecord>, verify_restored: bool, ok: bool) -> (res: (
    Option<CheckNotice>,
    CheckFollowUp,
))
    ensures
        res == spec_check_outcome(records@, verify_restored, ok),
{
    if ok {
        let notice = if failed_any(records) {
            CheckNotice::SomeNotUpdated
        } else if verify_restored && restorable_any(records) {
            CheckNotice::SomeRestored
        } else if verify_restored {
            CheckNotice::Restored
        } else {
            CheckNotice::ListUpdated
        };
        (
            Some(notice),
            if verify_restored {
                CheckFollowUp::Scan
            } else {
                CheckFollowUp::Refresh
            },
        )
    } else if verify_restored && restorable_any(records) && restorable_all_manual(records) {
        (Some(CheckNotice::RestoreManually), CheckFollowUp::Nothing)
    } else {
        (None, CheckFollowUp::Nothing)
    }
}

/// What going back on the cleanup page did.
#[derive(Clone, Copy, Debug, PartialEq, Eq, Structural)]
pub struct BackStep {
    /// Something was closed.
    pub handled: bool,
    /// The inventory is to be read again (see `begin_reload`).
    pub reload: bool,
}

impl CleanupState {
    /// Starts reviewing the selected candidates; nothing happens when none
    /// is selected or something is busy or loading. Returns the candidates
    /// to review.
    pub fn begin_review(&mut self) -> (res: Option<Vec<CleanupCandidate>>)
        ensures
            ({
                let chosen = chosen_of(old(self).shown@, old(self).selected@);
                if chosen.len() == 0 || old(self).busy || old(self).loading {
                    res is None && *final(self) == *old(self)
                } else {
                    &&& (res matches Some(v) && v@.len() == chosen.len() && forall|i: int|
                        0 <= i < v@.len() ==> (#[trigger] v@[i]).same(chosen[i]))
                    &&& final(self).busy
                    &&& final(self).progress == 0
                    &&& final(self).progress_total == chosen.len()
                    &&& !final(self).cancel_requested
                    &&& final(self).error is None
                    &&& final(self).shown == old(self).shown
                    &&& final(self).selected == old(self).selected
                }
            }),
    {
        let chosen = self.chosen();
        if chosen.len() == 0 || self.busy || self.loading {
            return None;
        }
        self.busy = true;
        self.progress = 0;
        self.progress_total = chosen.len();
        self.cancel_requested = false;
        self.error = None;
        Some(chosen)
    }

    /// The review or run has handled `n` candidates.
    pub fn report_progress(&mut self, n: usize)
        ensures
            final(self).progress == n,
            final(self).busy == old(self).busy,
            final(self).shown == old(self).shown,
    {
        self.progress = n;
    }

    /// The review ended. Returns whether its confirmation may be shown: the
    /// page is still open and nobody asked to stop, even if the stop came
    /// after the review had finished.
    pub fn finish_review(&mut self) -> (confirm: bool)
        ensures
            !final(self).busy,
            confirm == (old(self).open && !old(self).cancel_requested),
            final(self).shown == old(self).shown,
            final(self).selected == old(self).selected,
    {
        self.busy = false;
        self.open && !self.cancel_requested
    }

    /// Asks the review or run under way to stop after the current session.
    pub fn request_cancel(&mut self)
        ensures
            final(self).cancel_requested,
            final(self).busy == old(self).busy,
            final(self).executing == old(self).executing,
    {
        self.cancel_requested = true;
    }

    /// Starts moving the files of `count` reviewed candidates; nothing
    /// happens while something is busy. Returns whether the run starts.
    pub fn begin_execute(&mut self, count: usize) -> (start: bool)
        ensures
            start == !old(self).busy,
            !start ==> *final(self) == *old(self),
            start ==> {
                &&& final(self).busy && final(self).executing
                &&& final(self).progress == 0
                &&& final(self).progress_total == count
                &&& final(self).result is None
                &&& !final(self).history_open
                &&& final(self).expanded_results@.len() == 0
                &&& !final(self).cancel_requested
            },
    {
        if self.busy {
            return false;
        }
        self.busy = true;
        self.executing = true;
        self.progress = 0;
        self.progress_total = count;
        self.result = None;
        self.history_open = false;
        self.expanded_results = Vec::new();
        self.cancel_requested = false;
        true
    }
}

} // verus!

verus! {

/// The candidates that stay after a run: those whose root it did not remove.
pub open spec fn kept_candidates(cands: Seq<CleanupCandidate>, records: Seq<CleanupRecord>) -> Seq<
    CleanupCandidate,
>
    decreases cands.len(),
{
    if cands.len() == 0 {
        cands
    } else {
        let prev = kept_candidates(cands.drop_last(), records);
        if removed_by(records, cands.last().root.key@) {
            prev
        } else {
            prev.push(cands.last())
        }
    }
}

/// The rows that stay after a run: those whose session it did not remove.
pub open spec fn kept_rows(rows: Seq<CleanupEntry>, records: Seq<CleanupRecord>) -> Seq<CleanupEntry>
    decreases rows.len(),
{
    if rows.len() == 0 {
        rows
    } else {
        let prev = kept_rows(rows.drop_last(), records);
        if removed_by(records, rows.last().spec_session().key@) {
            prev
        } else {
            prev.push(rows.last())
        }
    }
}

/// A reader stays unless its session was removed.
pub open spec fn kept_reader(d: Option<DetailState>, records: Seq<CleanupRecord>) -> Option<
    DetailState,
> {
    match d {
        Some(r) => if removed_by(records, r.meta.key@) {
            None
        } else {
            Some(r)
        },
        None => None,
    }
}

/// The first past run with id `id`, from position `i` on.
pub open spec fn run_index_from(history: Seq<CleanupBatch>, id: i64, i: int) -> Option<int>
    decreases history.len() - i,
{
    if i < 0 || i >= history.len() {
        None
    } else if history[i].id == id {
        Some(i)
    } else {
        run_index_from(history, id, i + 1)
    }
}

fn removed(records: &Vec<CleanupRecord>, key: &String) -> (res: bool)
    ensures
        res == removed_by(records@, key@),
{
    let mut i: usize = 0;
    while i < records.len()
        invariant
            i <= records.len(),
            forall|a: int, b: int|
                0 <= a < i && records@[a].indexed && 0 <= b
                    < records@[a].candidate.sessions@.len() ==> (
                #[trigger] records@[a].candidate.sessions@[b]).key@ != key@,
        decreases records.len() - i,
    {
        if records[i].indexed {
            let sessions = &records[i].candidate.sessions;
            let mut j: usize = 0;
            while j < sessions.len()
                invariant
                    i < records.len(),
                    records@[i as int].indexed,
                    j <= sessions.len(),
                    sessions@ == records@[i as int].candidate.sessions@,
                    forall|b: int| 0 <= b < j ==> (#[trigger] sessions@[b]).key@ != key@,
                decreases sessions.len() - j,
            {
                if sessions[j].key == *key {
                    assert(records@[i as int].candidate.sessions@[j as int].key@ == key@);
                    return true;
                }
                j += 1;
            }
        }
        i += 1;
    }
    false
}

fn keep_candidates(cands: Vec<CleanupCandidate>, records: &Vec<CleanupRecord>) -> (res: Vec<
    CleanupCandidate,
>)
    ensures
        res@ == kept_candidates(cands@, records@),
{
    let ghost all = cands@;
    let n = cands.len();
    let mut rest = cands;
    let mut out: Vec<CleanupCandidate> = Vec::new();
    let mut i: usize = 0;
    while rest.len() > 0
        invariant
            i <= n,
            all.len() == n,
            rest@ == all.subrange(i as int, n as int),
            out@ == kept_candidates(all.take(i as int), records@),
        decreases rest.len(),
    {
        let c = rest.remove(0);
        proof {
            assert(rest@ =~= all.subrange(i + 1, n as int));
            let t = all.take(i + 1 as int);
            assert(t.drop_last() =~= all.take(i as int));
            assert(t.last() == all[i as int]);
        }
        if !removed(records, &c.root.key) {
            out.push(c);
        }
        i += 1;
    }
    assert(all.take(n as int) =~= all);
    out
}

fn keep_rows(rows: Vec<CleanupEntry>, records: &Vec<CleanupRecord>) -> (res: Vec<CleanupEntry>)
    ensures
        res@ == kept_rows(rows@, records@),
{
    let ghost all = rows@;
    let n = rows.len();
    let mut rest = rows;
    let mut out: Vec<CleanupEntry> = Vec::new();
    let mut i: usize = 0;
    while rest.len() > 0
        invariant
            i <= n,
            all.len() == n,
            rest@ == all.subrange(i as int, n as int),
            out@ == kept_rows(all.take(i as int), records@),
        decreases rest.len(),
    {
        let r = rest.remove(0);
        proof {
            assert(rest@ =~= all.subrange(i + 1, n as int));
            let t = all.take(i + 1 as int);
            assert(t.drop_last() =~= all.take(i as int));
            assert(t.last() == all[i as int]);
        }
        if !removed(records, &r.session().key) {
            out.push(r);
        }
        i += 1;
    }
    assert(all.take(n as int) =~= all);
    out
}

fn keep_reader(d: &mut Option<DetailState>, records: &Vec<CleanupRecord>)
    ensures
        *final(d) == kept_reader(*old(d), records@),
{
    let gone = match &*d {
        Some(r) => removed(records, &r.meta.key),
        None => false,
    };
    if gone {
        *d = None;
    }
}

fn run_position(history: &Vec<CleanupBatch>, id: i64) -> (res: Option<usize>)
    ensures
        match res {
            Some(k) => run_index_from(history@, id, 0) == Some(k as int) && k < history@.len(),
            None => run_index_from(history@, id, 0) is None,
        },
{
    let mut k: usize = 0;
    while k < history.len()
        invariant
            k <= history.len(),
            run_index_from(history@, id, 0) == run_index_from(history@, id, k as int),
        decreases history.len() - k,
    {
        if history[k].id == id {
            return Some(k);
        }
        k += 1;
    }
    None
}

impl CleanupState {
    /// Takes in a finished run and the error it stopped with: the sessions
    /// it removed from the index leave the inventory, the list and any
    /// reader; the run becomes the newest of the history and is shown.
    pub fn finish_execute(&mut self, batch: CleanupBatch, error: Option<String>, detail: &mut Option<DetailState>)
        ensures
            final(self).inventory.candidates@ == kept_candidates(
                old(self).inventory.candidates@,
                batch.records@,
            ),
            final(self).inventory.unavailable == old(self).inventory.unavailable,
            final(self).shown@ == kept_rows(old(self).shown@, batch.records@),
            *final(detail) == kept_reader(*old(detail), batch.records@),
            final(self).saved_detail == kept_reader(old(self).saved_detail, batch.records@),
            !final(self).busy && !final(self).executing,
            final(self).error == error,
            final(self).selected@.len() == 0,
            final(self).history@.len() == old(self).history@.len() + 1,
            final(self).history@[0].same(batch),
            forall|i: int|
                0 < i < final(self).history@.len() ==> #[trigger] final(self).history@[i] == old(self).history@[i - 1],
            final(self).result == Some(batch),
            final(self).refresh_after_history,
            final(self).open == old(self).open,
    {
        let mut cands: Vec<CleanupCandidate> = Vec::new();
        std::mem::swap(&mut cands, &mut self.inventory.candidates);
        self.inventory.candidates = keep_candidates(cands, &batch.records);
        let mut rows: Vec<CleanupEntry> = Vec::new();
        std::mem::swap(&mut rows, &mut self.shown);
        self.shown = keep_rows(rows, &batch.records);
        keep_reader(detail, &batch.records);
        let mut saved: Option<DetailState> = None;
        std::mem::swap(&mut saved, &mut self.saved_detail);
        keep_reader(&mut saved, &batch.records);
        self.saved_detail = saved;
        self.busy = false;
        self.executing = false;
        self.error = error;
        self.selected = Vec::new();
        self.history.insert(0, batch.duplicate());
        self.result = Some(batch);
        self.refresh_after_history = true;
    }

    /// Starts checking the shown run again; nothing happens while busy or
    /// without a shown run. Returns the run to check.
    pub fn begin_check(&mut self) -> (res: Option<CleanupBatch>)
        ensures
            (old(self).busy || old(self).result is None) ==> res is None && *final(self) == *old(self),
            !(old(self).busy || old(self).result is None) ==> {
                &&& (res matches Some(b) && b.same(old(self).result->0))
                &&& final(self).busy
                &&& final(self).error is None
                &&& final(self).result == old(self).result
            },
    {
        if self.busy {
            return None;
        }
        let copy = match &self.result {
            Some(b) => b.duplicate(),
            None => {
                return None;
            },
        };
        self.busy = true;
        self.error = None;
        Some(copy)
    }

    /// Takes in a finished check of a run: with `verify_restored` restored
    /// files were verified, else the index updates retried; `outcome` is
    /// the engine's answer. The run is shown and replaces its entry in the
    /// history. Returns the notice to show and what follows.
    pub fn finish_check(&mut self, batch: CleanupBatch, verify_restored: bool, outcome: Result<(), String>) -> (res: (
        Option<CheckNotice>,
        CheckFollowUp,
    ))
        ensures
            res == spec_check_outcome(batch.records@, verify_restored, outcome is Ok),
            !final(self).busy,
            final(self).refresh_after_history,
            final(self).result == Some(batch),
            final(self).history@.len() == old(self).history@.len(),
            forall|i: int|
                0 <= i < old(self).history@.len() ==> if run_index_from(
                    old(self).history@,
                    batch.id,
                    0,
                ) == Some(i) {
                    (#[trigger] final(self).history@[i]).same(batch)
                } else {
                    final(self).history@[i] == old(self).history@[i]
                },
            final(self).error == match outcome {
                Ok(_) => None,
                Err(e) => if res.0 == Some(CheckNotice::RestoreManually) {
                    None
                } else {
                    Some(e)
                },
            },
    {
        self.busy = false;
        self.refresh_after_history = true;
        let res = check_outcome(&batch.records, verify_restored, outcome.is_ok());
        match run_position(&self.history, batch.id) {
            Some(k) => {
                let ghost before = self.history@;
                let _ = self.history.remove(k);
                self.history.insert(k, batch.duplicate());
                assert forall|i: int| 0 <= i < before.len() && i != k implies #[trigger] self.history@[i]
                    == before[i] by {
                    if i < k {
                        assert(self.history@[i] == before.remove(k as int)[i]);
                    } else {
                        assert(self.history@[i] == before.remove(k as int)[i - 1]);
                    }
                }
            },
            None => {},
        }
        self.result = Some(batch);
        self.error = match outcome {
            Ok(_) => None,
            Err(e) => match res.0 {
                Some(CheckNotice::RestoreManually) => None,
                _ => Some(e),
            },
        };
        res
    }

    /// Goes back one step: from the preview to the list, or from a run to
    /// the history or list, or from the history to the list; nothing
    /// happens while busy. Back on the list after a run changed the index,
    /// the inventory is read again.
    pub fn navigate_back(&mut self) -> (res: BackStep)
        ensures
            old(self).busy || !(old(self).preview_open || old(self).result is Some
                || old(self).history_open) ==> res == (BackStep { handled: false, reload: false })
                && *final(self) == *old(self),
            !old(self).busy && old(self).preview_open ==> res.handled && !final(self).preview_open
                && final(self).result == old(self).result && final(self).history_open == old(self).history_open,
            !old(self).busy && !old(self).preview_open && old(self).result is Some ==> res.handled
                && final(self).result is None && final(self).expanded_results@.len() == 0
                && final(self).error is None && final(self).history_open == old(self).history_open,
            !old(self).busy && !old(self).preview_open && old(self).result is None
                && old(self).history_open ==> res.handled && !final(self).history_open
                && final(self).error is None,
            res.handled ==> res.reload == (!final(self).history_open && final(self).result is None
                && old(self).refresh_after_history) && (res.reload ==> !final(self).refresh_after_history),
            res.handled && !res.reload ==> final(self).refresh_after_history == old(self).refresh_after_history,
    {
        if self.busy {
            return BackStep { handled: false, reload: false };
        }
        if self.preview_open {
            self.preview_open = false;
        } else if self.result.is_some() {
            self.result = None;
            self.expanded_results = Vec::new();
            self.error = None;
        } else if self.history_open {
            self.history_open = false;
            self.error = None;
        } else {
            return BackStep { handled: false, reload: false };
        }
        let mut reload = false;
        if !self.history_open && self.result.is_none() && self.refresh_after_history {
            self.refresh_after_history = false;
            reload = true;
        }
        BackStep { handled: true, reload }
    }

    /// Shows past run `ix` in detail; nothing happens while busy.
    pub fn open_record(&mut self, ix: usize) -> (opened: bool)
        ensures
            opened == (!old(self).busy && ix < old(self).history@.len()),
            !opened ==> *final(self) == *old(self),
            opened ==> (final(self).result matches Some(b) && b.same(old(self).history@[ix as int]))
                && final(self).expanded_results@.len() == 0 && final(self).error is None,
    {
        if self.busy || ix >= self.history.len() {
            return false;
        }
        self.result = Some(self.history[ix].duplicate());
        self.expanded_results = Vec::new();
        self.error = None;
        true
    }

    /// Opens the history list.
    pub fn open_history(&mut self)
        ensures
            final(self).history_open,
            final(self).busy == old(self).busy,
            final(self).result == old(self).result,
    {
        self.history_open = true;
    }

    /// Discloses or hides the file details of the record with root `key`.
    pub fn toggle_result_details(&mut self, key: &String)
        ensures
            forall|k: Seq<char>|
                #[trigger] lists_key(final(self).expanded_results@, k) == (if k == key@ {
                    !lists_key(old(self).expanded_results@, k)
                } else {
                    lists_key(old(self).expanded_results@, k)
                }),
    {
        let had = key_listed_in(&self.expanded_results, key);
        let mut kept = drop_key(&self.expanded_results, key);
        if !had {
            add_key(&mut kept, key);
        }
        self.expanded_results = kept;
    }

    /// Whether a row's session may be previewed: not while busy.
    pub fn can_preview(&self) -> (res: bool)
        ensures
            res == !self.busy,
    {
        !self.busy
    }

    /// The reader now shows `detail`; when it is the session `key` asked for,
    /// that row is previewed. Returns whether it is.
    pub fn preview_opened(&mut self, key: &String, detail: &Option<DetailState>) -> (shown: bool)
        ensures
            shown == (detail matches Some(d) && d.meta.key@ == key@),
            shown ==> final(self).preview_open && final(self).focus == Some(*key),
            !shown ==> *final(self) == *old(self),
    {
        let shown = match detail {
            Some(d) => d.meta.key == *key,
            None => false,
        };
        if shown {
            self.focus = Some(key.clone());
            self.preview_open = true;
        }
        shown
    }

    /// Closes the preview, back to the list.
    pub fn close_preview(&mut self)
        ensures
            !final(self).preview_open,
            final(self).focus == old(self).focus,
            final(self).busy == old(self).busy,
    {
        self.preview_open = false;
    }
}

} // verus!

verus! {

/// The page and the list's reader after closing the page.
pub open spec fn spec_leave(s: CleanupState, detail: Option<DetailState>) -> (CleanupState, Option<
    DetailState,
>) {
    if !s.open {
        (s, detail)
    } else {
        (
            CleanupState {
                open: false,
                preview_open: false,
                cancel_requested: s.cancel_requested || (s.busy && !s.executing),
                saved_detail: None,
                ..s
            },
            s.saved_detail,
        )
    }
}

/// The page and the list's reader after opening the page.
pub open spec fn spec_enter(s: CleanupState, detail: Option<DetailState>) -> (CleanupState, Option<
    DetailState,
>) {
    (
        CleanupState { open: true, saved_detail: detail, history_open: false, result: None, ..s },
        None,
    )
}

/// Rows whose session a run removed are no longer listed, and every row
/// still listed was listed before, in the same order.
pub proof fn law_removed_sessions_leave_the_list(rows: Seq<CleanupEntry>, records: Seq<CleanupRecord>)
    ensures
        forall|i: int|
            0 <= i < kept_rows(rows, records).len() ==> !removed_by(
                records,
                (#[trigger] kept_rows(rows, records)[i]).spec_session().key@,
            ),
        kept_rows(rows, records).len() <= rows.len(),
        forall|i: int|
            0 <= i < kept_rows(rows, records).len() ==> rows.contains(
                #[trigger] kept_rows(rows, records)[i],
            ),
    decreases rows.len(),
{
    if rows.len() > 0 {
        law_removed_sessions_leave_the_list(rows.drop_last(), records);
        let prev = kept_rows(rows.drop_last(), records);
        assert forall|i: int| 0 <= i < prev.len() implies rows.contains(#[trigger] prev[i]) by {
            assert(rows.drop_last().contains(prev[i]));
            let j = choose|j: int| 0 <= j < rows.drop_last().len() && rows.drop_last()[j] == prev[i];
            assert(rows[j] == prev[i]);
        }
        if !removed_by(records, rows.last().spec_session().key@) {
            let next = prev.push(rows.last());
            assert forall|i: int| 0 <= i < next.len() implies rows.contains(#[trigger] next[i]) by {
                if i < prev.len() {
                    assert(next[i] == prev[i]);
                } else {
                    assert(rows[rows.len() - 1] == next[i]);
                }
            }
            assert forall|i: int| 0 <= i < next.len() implies !removed_by(
                records,
                (#[trigger] next[i]).spec_session().key@,
            ) by {
                if i < prev.len() {
                    assert(next[i] == prev[i]);
                }
            }
        }
    }
}

/// Opening the cleanup page and closing it again gives the list back the
/// reader it had, and leaves the page closed.
pub proof fn law_cleanup_round_trip_restores_reader(s: CleanupState, detail: Option<DetailState>)
    requires
        !s.open,
    ensures
        ({
            let (entered, none) = spec_enter(s, detail);
            let (left, back) = spec_leave(entered, none);
            &&& none is None
            &&& back == detail
            &&& !left.open
            &&& left.saved_detail is None
        }),
{
}

} // verus!

verus! {

/// The first session of `sessions` with key `key`, from position `i` on.
pub open spec fn first_member(sessions: Seq<SessionMeta>, key: Seq<char>, i: int) -> Option<int>
    decreases sessions.len() - i,
{
    if i < 0 || i >= sessions.len() {
        None
    } else if sessions[i].key@ == key {
        Some(i)
    } else {
        first_member(sessions, key, i + 1)
    }
}

/// `m` with its star and pin set.
pub open spec fn flagged(m: SessionMeta, favorite: bool, pinned: bool) -> SessionMeta {
    SessionMeta { favorite, pinned, ..m }
}

/// `sessions` with the star and pin of its first session `key` set.
pub open spec fn flag_members(sessions: Seq<SessionMeta>, key: Seq<char>, favorite: bool, pinned: bool) -> Seq<
    SessionMeta,
> {
    match first_member(sessions, key, 0) {
        Some(i) => sessions.update(i, flagged(sessions[i], favorite, pinned)),
        None => sessions,
    }
}

/// `new` is candidate `old` after session `key` was starred or pinned anew.
pub open spec fn candidate_flagged(
    old: CleanupCandidate,
    new: CleanupCandidate,
    key: Seq<char>,
    favorite: bool,
    pinned: bool,
) -> bool {
    let hit = first_member(old.sessions@, key, 0) is Some;
    &&& new.sessions@ == flag_members(old.sessions@, key, favorite, pinned)
    &&& new.root == (if hit && old.root.key@ == key {
        flagged(old.root, favorite, pinned)
    } else {
        old.root
    })
    &&& new.targets@ == old.targets@
    &&& new.bytes == old.bytes
    &&& new.prompts == old.prompts
    &&& new.updated_at == old.updated_at
}

/// `new` is unavailable session `old` after session `key` was starred or
/// pinned anew.
pub open spec fn unavailable_flagged(
    old: UnavailableSession,
    new: UnavailableSession,
    key: Seq<char>,
    favorite: bool,
    pinned: bool,
) -> bool {
    let hit = first_member(old.sessions@, key, 0) is Some;
    &&& new.sessions@ == flag_members(old.sessions@, key, favorite, pinned)
    &&& new.session == (if hit && old.session.key@ == key {
        flagged(old.session, favorite, pinned)
    } else {
        old.session
    })
    &&& new.reason == old.reason
    &&& new.updated_at == old.updated_at
}

/// Some candidate of `cands` with root key `root` holds session `key`.
pub open spec fn tree_holds(cands: Seq<CleanupCandidate>, root: Seq<char>, key: Seq<char>) -> bool {
    exists|i: int|
        0 <= i < cands.len() && (#[trigger] cands[i]).root.key@ == root && first_member(
            cands[i].sessions@,
            key,
            0,
        ) is Some
}

fn flag_sessions(sessions: Vec<SessionMeta>, key: &String, favorite: bool, pinned: bool) -> (res: (
    Vec<SessionMeta>,
    bool,
))
    ensures
        res.0@ == flag_members(sessions@, key@, favorite, pinned),
        res.1 == (first_member(sessions@, key@, 0) is Some),
{
    let ghost all = sessions@;
    let n = sessions.len();
    let mut rest = sessions;
    let mut out: Vec<SessionMeta> = Vec::new();
    let mut found = false;
    let mut i: usize = 0;
    proof {
        lemma_first_member_bounds(all, key@, 0);
    }
    while rest.len() > 0
        invariant
            i <= n,
            all.len() == n,
            rest@ == all.subrange(i as int, n as int),
            out@.len() == i,
            first_member(all, key@, 0) matches Some(f) ==> 0 <= f < n && all[f].key@ == key@,
            found == (first_member(all, key@, 0) matches Some(f) && f < i),
            !found ==> first_member(all, key@, 0) == first_member(all, key@, i as int),
            forall|k: int|
                0 <= k < i ==> #[trigger] out@[k] == (if first_member(all, key@, 0) == Some(k) {
                    flagged(all[k], favorite, pinned)
                } else {
                    all[k]
                }),
        decreases rest.len(),
    {
        let mut m = rest.remove(0);
        proof {
            assert(m == all[i as int]);
            assert(rest@ =~= all.subrange(i + 1, n as int));
            if !found {
                lemma_first_member_bounds(all, key@, i as int);
            }
        }
        if !found && m.key == *key {
            m.favorite = favorite;
            m.pinned = pinned;
            found = true;
        }
        out.push(m);
        i += 1;
    }
    proof {
        match first_member(all, key@, 0) {
            Some(f) => {
                lemma_first_member_bounds(all, key@, 0);
                assert(out@ =~= all.update(f, flagged(all[f], favorite, pinned)));
            },
            None => {
                assert(out@ =~= all);
            },
        }
    }
    (out, found)
}

proof fn lemma_first_member_bounds(sessions: Seq<SessionMeta>, key: Seq<char>, i: int)
    requires
        0 <= i,
    ensures
        first_member(sessions, key, i) matches Some(f) ==> i <= f < sessions.len() && sessions[f].key@
            == key,
    decreases sessions.len() - i,
{
    if i < sessions.len() && sessions[i].key@ != key {
        lemma_first_member_bounds(sessions, key, i + 1);
    }
}

} // verus!

verus! {

impl CleanupState {
    /// Carries a new star or pin of session `key` into the inventory while
    /// the page is open; a tree that holds the session is deselected, since
    /// its protection changed. Returns whether the rows must be filtered
    /// anew (the page is open).
    pub fn refresh_flags(&mut self, key: &String, favorite: bool, pinned: bool) -> (reapply: bool)
        ensures
            reapply == old(self).open,
            !reapply ==> *final(self) == *old(self),
            reapply ==> {
                &&& final(self).inventory.candidates@.len() == old(self).inventory.candidates@.len()
                &&& forall|i: int|
                    0 <= i < old(self).inventory.candidates@.len() ==> candidate_flagged(
                        #[trigger] old(self).inventory.candidates@[i],
                        final(self).inventory.candidates@[i],
                        key@,
                        favorite,
                        pinned,
                    )
                &&& final(self).inventory.unavailable@.len() == old(
                    self,
                ).inventory.unavailable@.len()
                &&& forall|i: int|
                    0 <= i < old(self).inventory.unavailable@.len() ==> unavailable_flagged(
                        #[trigger] old(self).inventory.unavailable@[i],
                        final(self).inventory.unavailable@[i],
                        key@,
                        favorite,
                        pinned,
                    )
                &&& forall|k: Seq<char>|
                    #[trigger] lists_key(final(self).selected@, k) == (lists_key(
                        old(self).selected@,
                        k,
                    ) && !tree_holds(old(self).inventory.candidates@, k, key@))
                &&& (distinct_keys(old(self).selected@) ==> distinct_keys(final(self).selected@))
                &&& final(self).shown == old(self).shown
            },
    {
        if !self.open {
            return false;
        }
        let mut cands: Vec<CleanupCandidate> = Vec::new();
        std::mem::swap(&mut cands, &mut self.inventory.candidates);
        let ghost all = cands@;
        let n = cands.len();
        let mut out: Vec<CleanupCandidate> = Vec::new();
        let mut selected: Vec<String> = Vec::new();
        std::mem::swap(&mut selected, &mut self.selected);
        let ghost sel0 = selected@;
        let mut i: usize = 0;
        while cands.len() > 0
            invariant
                i <= n,
                all.len() == n,
                cands@ == all.subrange(i as int, n as int),
                out@.len() == i,
                forall|k: int|
                    0 <= k < i ==> candidate_flagged(all[k], #[trigger] out@[k], key@, favorite, pinned),
                forall|k: Seq<char>|
                    #[trigger] lists_key(selected@, k) == (lists_key(sel0, k) && !tree_holds(
                        all.take(i as int),
                        k,
                        key@,
                    )),
                distinct_keys(sel0) ==> distinct_keys(selected@),
            decreases cands.len(),
        {
            let c = cands.remove(0);
            proof {
                assert(c == all[i as int]);
                assert(cands@ =~= all.subrange(i + 1, n as int));
            }
            let CleanupCandidate { root, sessions, targets, bytes, prompts, updated_at } = c;
            let (sessions, hit) = flag_sessions(sessions, key, favorite, pinned);
            let mut root = root;
            if hit && root.key == *key {
                root.favorite = favorite;
                root.pinned = pinned;
            }
            if hit {
                selected = drop_key(&selected, &root.key);
            }
            proof {
                let t = all.take(i + 1 as int);
                assert forall|k: Seq<char>| #[trigger] tree_holds(t, k, key@) == (tree_holds(
                    all.take(i as int),
                    k,
                    key@,
                ) || (all[i as int].root.key@ == k && hit)) by {
                    if tree_holds(t, k, key@) {
                        let j = choose|j: int|
                            0 <= j < t.len() && (#[trigger] t[j]).root.key@ == k && first_member(
                                t[j].sessions@,
                                key@,
                                0,
                            ) is Some;
                        if j < i {
                            assert(all.take(i as int)[j] == t[j]);
                        }
                    }
                    if tree_holds(all.take(i as int), k, key@) {
                        let j = choose|j: int|
                            0 <= j < i && (#[trigger] all.take(i as int)[j]).root.key@ == k
                                && first_member(all.take(i as int)[j].sessions@, key@, 0) is Some;
                        assert(t[j] == all.take(i as int)[j]);
                    }
                    if all[i as int].root.key@ == k && hit {
                        assert(t[i as int] == all[i as int]);
                    }
                }
            }
            out.push(CleanupCandidate { root, sessions, targets, bytes, prompts, updated_at });
            i += 1;
        }
        assert(all.take(n as int) =~= all);
        self.inventory.candidates = out;
        self.selected = selected;
        let mut items: Vec<UnavailableSession> = Vec::new();
        std::mem::swap(&mut items, &mut self.inventory.unavailable);
        let ghost uall = items@;
        let un = items.len();
        let mut uout: Vec<UnavailableSession> = Vec::new();
        let mut j: usize = 0;
        while items.len() > 0
            invariant
                j <= un,
                uall.len() == un,
                items@ == uall.subrange(j as int, un as int),
                uout@.len() == j,
                forall|k: int|
                    0 <= k < j ==> unavailable_flagged(uall[k], #[trigger] uout@[k], key@, favorite, pinned),
            decreases items.len(),
        {
            let u = items.remove(0);
            proof {
                assert(u == uall[j as int]);
                assert(items@ =~= uall.subrange(j + 1, un as int));
            }
            let UnavailableSession { session, sessions, reason, updated_at } = u;
            let (sessions, hit) = flag_sessions(sessions, key, favorite, pinned);
            let mut session = session;
            if hit && session.key == *key {
                session.favorite = favorite;
                session.pinned = pinned;
            }
            uout.push(UnavailableSession { session, sessions, reason, updated_at });
            j += 1;
        }
        self.inventory.unavailable = uout;
        true
    }
}

} // verus!

verus! {

/// How the filter button of the cleanup page looks.
#[derive(Clone, Copy, Debug, PartialEq, Eq, Structural)]
pub struct FilterTrigger {
    /// The button can be pressed: no review, run or check is under way.
    pub enabled: bool,
    /// Drawn in the primary color: some filter narrows the list.
    pub highlighted: bool,
}

impl CleanupState {
    /// The filter button: usable unless something is busy, highlighted
    /// while a filter is set.
    pub fn filter_trigger(&self) -> (res: FilterTrigger)
        ensures
            res.enabled == !self.busy,
            res.highlighted == spec_has_filters(self.options),
    {
        FilterTrigger { enabled: !self.busy, highlighted: has_filters(&self.options) }
    }

    /// Whether the filter panel's Clear button is usable: some filter is
    /// set, or text is typed into the source search.
    pub fn can_clear_filters(&self) -> (res: bool)
        ensures
            res == (spec_has_filters(self.options) || self.filter_query@.len() > 0),
    {
        has_filters(&self.options) || self.filter_query.as_str().unicode_len() > 0
    }

    /// The Clear button of the filter panel: every filter goes (the order
    /// stays), the source search is emptied, and `rows`, the inventory
    /// filtered anew by the cleared options, are shown with the selection
    /// cleared, as `apply_rows(rows, true, detail)` shows them.
    pub fn clear_filters(&mut self, rows: Vec<CleanupEntry>, detail: &mut Option<DetailState>)
        ensures
            !spec_has_filters(final(self).options),
            final(self).options.created_days == 0,
            final(self).options.updated_days == 0,
            final(self).options.agents@.len() == 0,
            final(self).options.projects@.len() == 0,
            !final(self).options.exclude_starred,
            !final(self).options.exclude_pinned,
            !final(self).options.only_cleanable,
            final(self).options.sort == old(self).options.sort,
            final(self).options.ascending == old(self).options.ascending,
            final(self).filter_query@.len() == 0,
            final(self).shown == rows,
            final(self).selected@.len() == 0,
            final(self).focus == match old(self).focus {
                Some(f) => if shows_session(rows@, f@) {
                    Some(f)
                } else {
                    None
                },
                None => None,
            },
            (old(self).open && final(self).focus is None) ==> !final(self).preview_open
                && *final(detail) is None,
            !(old(self).open && final(self).focus is None) ==> final(self).preview_open == old(
                self,
            ).preview_open && *final(detail) == *old(detail),
            *final(self) == (CleanupState {
                options: final(self).options,
                filter_query: final(self).filter_query,
                shown: final(self).shown,
                selected: final(self).selected,
                focus: final(self).focus,
                preview_open: final(self).preview_open,
                ..*old(self)
            }),
    {
        self.options.clear_filters();
        self.filter_query = String::new();
        self.apply_rows(rows, true, detail);
    }
}

} // verus!
