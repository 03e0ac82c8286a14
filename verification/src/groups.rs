//! Date sections of the session list: which calendar label a session falls
//! under, how consecutive rows form sections, and how a (section, row)
//! position maps to a row of the flat list and back.
use vstd::prelude::*;
use vstd::string::StringExecFns;
use crate::model::SessionMeta;
use crate::stamp::{push_year, year_text};
use crate::calendar::{
    calendar_date, chrono_day_number, local_calendar_date, timestamp_in_range,
    timestamp_inside_range, utc_day_number,
    CalendarDate,
};

verus! {

/// The heading of a section of the session list.
#[derive(Clone, Copy, Debug, PartialEq, Eq, Structural)]
pub enum GroupLabel {
    /// The single unlabeled section of a list that is not sorted by time.
    Flat,
    Pinned,
    Undated,
    Today,
    Yesterday,
    EarlierThisWeek,
    /// A month of the current year.
    Month(u32),
    /// A month of another year: (month, year).
    MonthOfYear(u32, i32),
}

/// The English name of a month, as chrono's `%B` writes it.
pub open spec fn month_name(month: u32) -> Seq<char> {
    if month == 1 {
        "January"@
    } else if month == 2 {
        "February"@
    } else if month == 3 {
        "March"@
    } else if month == 4 {
        "April"@
    } else if month == 5 {
        "May"@
    } else if month == 6 {
        "June"@
    } else if month == 7 {
        "July"@
    } else if month == 8 {
        "August"@
    } else if month == 9 {
        "September"@
    } else if month == 10 {
        "October"@
    } else if month == 11 {
        "November"@
    } else if month == 12 {
        "December"@
    } else {
        Seq::empty()
    }
}

/// The heading shown for a section: a month of another year reads as
/// chrono's `%B %Y` writes it; the flat section has none.
pub open spec fn label_text(label: GroupLabel) -> Seq<char> {
    match label {
        GroupLabel::Flat => Seq::empty(),
        GroupLabel::Pinned => "Pinned"@,
        GroupLabel::Undated => "Undated"@,
        GroupLabel::Today => "Today"@,
        GroupLabel::Yesterday => "Yesterday"@,
        GroupLabel::EarlierThisWeek => "Earlier this week"@,
        GroupLabel::Month(m) => month_name(m),
        GroupLabel::MonthOfYear(m, y) => month_name(m) + seq![' '] + year_text(y as int),
    }
}

fn month_text(month: u32) -> (res: &'static str)
    ensures
        res@ == month_name(month),
{
    if month == 1 {
        "January"
    } else if month == 2 {
        "February"
    } else if month == 3 {
        "March"
    } else if month == 4 {
        "April"
    } else if month == 5 {
        "May"
    } else if month == 6 {
        "June"
    } else if month == 7 {
        "July"
    } else if month == 8 {
        "August"
    } else if month == 9 {
        "September"
    } else if month == 10 {
        "October"
    } else if month == 11 {
        "November"
    } else if month == 12 {
        "December"
    } else {
        proof {
            reveal_strlit("");
        }
        ""
    }
}

impl GroupLabel {
    /// The heading shown for the section.
    pub fn text(&self) -> (res: String)
        ensures
            res@ == label_text(*self),
    {
        match *self {
            GroupLabel::Flat => String::new(),
            GroupLabel::Pinned => String::from_str("Pinned"),
            GroupLabel::Undated => String::from_str("Undated"),
            GroupLabel::Today => String::from_str("Today"),
            GroupLabel::Yesterday => String::from_str("Yesterday"),
            GroupLabel::EarlierThisWeek => String::from_str("Earlier this week"),
            GroupLabel::Month(m) => String::from_str(month_text(m)),
            GroupLabel::MonthOfYear(m, y) => {
                let mut s = String::from_str(month_text(m));
                proof {
                    reveal_strlit(" ");
                }
                s.append(" ");
                push_year(&mut s, y);
                assert(s@ =~= label_text(*self));
                s
            },
        }
    }
}

/// The first day of the week (Monday) that contains `today` exists in chrono's range.
pub open spec fn week_start_representable(today: CalendarDate) -> bool {
    today.day_number - today.weekday >= chrono_day_number(-262143i32, 1u32, 1u32)
}

/// The label of a session whose local day is `date`, seen on `today`.
pub open spec fn spec_label_for_date(date: CalendarDate, today: CalendarDate) -> GroupLabel {
    if date.day_number >= today.day_number {
        GroupLabel::Today
    } else if date.day_number == today.day_number - 1 {
        GroupLabel::Yesterday
    } else if date.day_number >= today.day_number - today.weekday {
        GroupLabel::EarlierThisWeek
    } else if date.year == today.year {
        GroupLabel::Month(date.month)
    } else {
        GroupLabel::MonthOfYear(date.month, date.year)
    }
}

/// Labeling `date` needs the start of `today`'s week.
pub open spec fn label_needs_week_start(date: CalendarDate, today: CalendarDate) -> bool {
    date.day_number < today.day_number - 1
}

/// The label of a session whose local day is `date`, seen on `today`.
pub fn label_for_date(date: CalendarDate, today: CalendarDate) -> (res: GroupLabel)
    requires
        today.wf(),
        label_needs_week_start(date, today) ==> week_start_representable(today),
    ensures
        res == spec_label_for_date(date, today),
{
    let d = date.day_number as i64;
    let t = today.day_number as i64;
    if d >= t {
        GroupLabel::Today
    } else if d == t - 1 {
        GroupLabel::Yesterday
    } else if d >= t - today.weekday as i64 {
        GroupLabel::EarlierThisWeek
    } else if date.year == today.year {
        GroupLabel::Month(date.month)
    } else {
        GroupLabel::MonthOfYear(date.month, date.year)
    }
}

/// The labels a session with timestamp `ts` may get on `today`: `Undated`
/// when its local day is unknown, else the label of its local day.
pub open spec fn possible_label(label: GroupLabel, today: CalendarDate) -> bool {
    label == GroupLabel::Undated || exists|d: CalendarDate|
        d.wf() && label == spec_label_for_date(d, today)
}

/// `label` is the label of a session with timestamp `ts` on `today`:
/// `Undated` when chrono cannot date the timestamp, and otherwise the label
/// of its local day, a well-formed day within one day of its UTC day. A
/// timestamp whose UTC day lies strictly inside chrono's calendar is dated.
pub open spec fn label_of_timestamp(label: GroupLabel, ts: i64, today: CalendarDate) -> bool {
    &&& (!timestamp_in_range(ts) ==> label == GroupLabel::Undated)
    &&& (timestamp_inside_range(ts) ==> label != GroupLabel::Undated)
    &&& (label != GroupLabel::Undated ==> exists|d: CalendarDate|
        d.wf() && utc_day_number(ts) - 1 <= d.day_number <= utc_day_number(ts) + 1 && label
            == spec_label_for_date(d, today))
}

/// The section label of a session updated (or created) at `ts` milliseconds:
/// `Undated` when chrono cannot date the timestamp, else the label of its
/// local day, which lies within a day of its UTC day.
/// The first day of today's week is needed only for a session whose UTC
/// day lies before today.
pub fn session_group_label(ts: i64, today: CalendarDate) -> (res: GroupLabel)
    requires
        today.wf(),
        week_start_representable(today) || utc_day_number(ts) >= today.day_number,
    ensures
        possible_label(res, today),
        label_of_timestamp(res, ts, today),
{
    match local_calendar_date(ts) {
        None => GroupLabel::Undated,
        Some(date) => {
            let l = label_for_date(date, today);
            assert(date.wf() && l == spec_label_for_date(date, today));
            l
        },
    }
}

/// Whether the first day of `today`'s week exists in chrono's range; it
/// does for every day of year 1 onwards.
pub fn check_week_start(today: CalendarDate) -> (res: bool)
    ensures
        res == week_start_representable(today),
        today.weekday < 7 && today.day_number >= 7 ==> res,
{
    match calendar_date(-262143, 1, 1) {
        Some(first) => (today.day_number as i64) - (today.weekday as i64)
            >= first.day_number as i64,
        None => false,
    }
}

/// A section of the session list: rows `start..end` under `label`.
#[derive(Clone, Copy, Debug, PartialEq, Eq, Structural)]
pub struct SessionGroup {
    pub label: GroupLabel,
    pub start: usize,
    pub end: usize,
}

/// `groups` are non-empty, consecutive ranges covering exactly `lo..hi`.
pub open spec fn tiles(groups: Seq<SessionGroup>, lo: int, hi: int) -> bool {
    &&& (groups.len() == 0 <==> lo == hi)
    &&& groups.len() > 0 ==> groups[0].start == lo && groups.last().end == hi
    &&& forall|k: int| 0 <= k < groups.len() ==> #[trigger] groups[k].start < groups[k].end
    &&& forall|k: int| 0 <= k < groups.len() - 1 ==> #[trigger] groups[k].end == groups[k + 1].start
}

/// Each group is a maximal run of equal labels: rows of a group share its
/// label, and neighbouring groups differ.
pub open spec fn maximal_runs(groups: Seq<SessionGroup>, labels: Seq<GroupLabel>) -> bool {
    &&& forall|k: int, i: int|
        #![trigger groups[k], labels[i]]
        0 <= k < groups.len() && groups[k].start <= i < groups[k].end ==> labels[i]
            == groups[k].label
    &&& forall|k: int| 0 <= k < groups.len() - 1 ==> #[trigger] groups[k].label != groups[k + 1].label
}

proof fn lemma_tiles_cover(groups: Seq<SessionGroup>, lo: int, hi: int, i: int)
    requires
        tiles(groups, lo, hi),
        lo <= i < hi,
    ensures
        exists|k: int| 0 <= k < groups.len() && #[trigger] groups[k].start <= i < groups[k].end,
    decreases groups.len(),
{
    if i < groups[0].end {
        assert(groups[0].start <= i < groups[0].end);
    } else {
        let rest = groups.drop_first();
        assert forall|k: int| 0 <= k < rest.len() implies #[trigger] rest[k].start < rest[k].end by {
            assert(rest[k] == groups[k + 1]);
        }
        assert forall|k: int| 0 <= k < rest.len() - 1 implies #[trigger] rest[k].end == rest[k
            + 1].start by {
            assert(rest[k] == groups[k + 1]);
            assert(rest[k + 1] == groups[k + 2]);
        }
        assert(groups.len() > 1) by {
            if groups.len() == 1 {
                assert(groups.last() == groups[0]);
            }
        }
        assert(rest.last() == groups.last());
        assert(rest[0] == groups[1]);
        assert(groups[0].end == groups[1].start);
        lemma_tiles_cover(rest, groups[0].end as int, hi, i);
        let k = choose|k: int| 0 <= k < rest.len() && #[trigger] rest[k].start <= i < rest[k].end;
        assert(groups[k + 1] == rest[k]);
    }
}

} // verus!

verus! {

/// Runs of equal labels over `labels[lo..]`, in order.
pub fn label_runs(labels: &Vec<GroupLabel>, lo: usize) -> (res: Vec<SessionGroup>)
    requires
        lo <= labels.len(),
    ensures
        tiles(res@, lo as int, labels.len() as int),
        maximal_runs(res@, labels@),
{
    let n = labels.len();
    let mut groups: Vec<SessionGroup> = Vec::new();
    let mut start = lo;
    while start < n
        invariant
            n == labels.len(),
            lo <= start <= n,
            tiles(groups@, lo as int, start as int),
            maximal_runs(groups@, labels@),
            groups.len() > 0 && start < n ==> groups@.last().label != labels@[start as int],
        decreases n - start,
    {
        let label = labels[start];
        let mut end = start + 1;
        while end < n && labels[end] == label
            invariant
                start < end <= n,
                n == labels.len(),
                label == labels@[start as int],
                forall|i: int| start <= i < end ==> labels@[i] == label,
            decreases n - end,
        {
            end += 1;
        }
        let ghost old_groups = groups@;
        groups.push(SessionGroup { label, start, end });
        proof {
            let g = groups@;
            assert forall|k: int| 0 <= k < g.len() implies #[trigger] g[k].start < g[k].end by {
                if k < old_groups.len() {
                    assert(g[k] == old_groups[k]);
                }
            }
            assert forall|k: int| 0 <= k < g.len() - 1 implies #[trigger] g[k].end == g[k
                + 1].start by {
                assert(g[k] == old_groups[k]);
                if k + 1 < old_groups.len() {
                    assert(g[k + 1] == old_groups[k + 1]);
                } else {
                    assert(old_groups.last() == old_groups[k]);
                }
            }
            assert forall|k: int, i: int|
                #![trigger g[k], labels@[i]]
                0 <= k < g.len() && g[k].start <= i < g[k].end implies labels@[i] == g[k].label by {
                if k < old_groups.len() {
                    assert(g[k] == old_groups[k]);
                }
            }
            assert forall|k: int| 0 <= k < g.len() - 1 implies #[trigger] g[k].label != g[k
                + 1].label by {
                assert(g[k] == old_groups[k]);
                if k + 1 < old_groups.len() {
                    assert(g[k + 1] == old_groups[k + 1]);
                } else {
                    assert(old_groups.last() == old_groups[k]);
                }
            }
            if end < n {
                assert(g.last().label == label);
                assert(labels@[end as int] != label);
            }
        }
        start = end;
    }
    groups
}

/// How the session list is ordered.
#[derive(Clone, Copy, Debug, PartialEq, Eq, Structural)]
pub enum SortKey {
    Created,
    Updated,
    Messages,
}

/// Lists sorted by creation or update time, newest first, get date sections.
pub open spec fn time_descending(sort: SortKey, ascending: bool) -> bool {
    !ascending && (sort == SortKey::Updated || sort == SortKey::Created)
}

/// One row of the visible session list: a root session, or a nested
/// session shown under its expanded root.
#[derive(Clone, Debug)]
pub struct SessionListRow {
    pub meta: SessionMeta,
    /// 0 for root sessions, 1 for nested ones.
    pub depth: u8,
    pub child_count: i64,
    pub expanded: bool,
    /// Nested rows take their root's timestamp and pin so that they stay in
    /// the root's section.
    pub group_timestamp: i64,
    pub group_pinned: bool,
}

/// Number of leading rows that are pinned.
pub open spec fn pinned_prefix(rows: Seq<SessionListRow>) -> int
    decreases rows.len(),
{
    if rows.len() == 0 {
        0
    } else if rows[0].group_pinned {
        1 + pinned_prefix(rows.drop_first())
    } else {
        0
    }
}

pub(crate) proof fn lemma_pinned_prefix_bounds(rows: Seq<SessionListRow>)
    ensures
        0 <= pinned_prefix(rows) <= rows.len(),
        forall|i: int| 0 <= i < pinned_prefix(rows) ==> #[trigger] rows[i].group_pinned,
        pinned_prefix(rows) < rows.len() ==> !rows[pinned_prefix(rows)].group_pinned,
    decreases rows.len(),
{
    if rows.len() > 0 && rows[0].group_pinned {
        let rest = rows.drop_first();
        lemma_pinned_prefix_bounds(rest);
        assert forall|i: int| 0 <= i < pinned_prefix(rows) implies #[trigger] rows[i].group_pinned by {
            if i > 0 {
                assert(rows[i] == rest[i - 1]);
            }
        }
        if pinned_prefix(rows) < rows.len() {
            assert(rows[pinned_prefix(rows)] == rest[pinned_prefix(rest)]);
        }
    }
}

/// The sections of `rows` given the date label of each row (labels of
/// pinned rows are not used): one unlabeled section unless the list is
/// newest-first by time; then the pinned rows first, followed by maximal
/// runs of equal labels.
pub open spec fn grouped_as(
    groups: Seq<SessionGroup>,
    rows: Seq<SessionListRow>,
    labels: Seq<GroupLabel>,
    time_desc: bool,
) -> bool {
    let n = rows.len() as int;
    let p = pinned_prefix(rows);
    if n == 0 || !time_desc {
        groups == seq![SessionGroup { label: GroupLabel::Flat, start: 0, end: n as usize }]
    } else if p > 0 {
        &&& groups.len() > 0
        &&& groups[0] == SessionGroup { label: GroupLabel::Pinned, start: 0, end: p as usize }
        &&& tiles(groups.drop_first(), p, n)
        &&& maximal_runs(groups.drop_first(), labels)
    } else {
        &&& tiles(groups, 0, n)
        &&& maximal_runs(groups, labels)
    }
}

fn count_pinned_prefix(rows: &[SessionListRow]) -> (res: usize)
    ensures
        res == pinned_prefix(rows@),
        res <= rows.len(),
{
    proof {
        lemma_pinned_prefix_bounds(rows@);
    }
    let mut i: usize = 0;
    while i < rows.len() && rows[i].group_pinned
        invariant
            i <= rows.len(),
            i <= pinned_prefix(rows@),
            0 <= pinned_prefix(rows@) <= rows@.len(),
            forall|j: int| 0 <= j < pinned_prefix(rows@) ==> #[trigger] rows@[j].group_pinned,
            pinned_prefix(rows@) < rows@.len() ==> !rows@[pinned_prefix(rows@)].group_pinned,
        decreases rows.len() - i,
    {
        i += 1;
    }
    i
}

/// The sections of `rows` for the given per-row date labels.
pub fn groups_for_labels(
    rows: &[SessionListRow],
    labels: &Vec<GroupLabel>,
    sort: SortKey,
    ascending: bool,
) -> (res: Vec<SessionGroup>)
    requires
        labels.len() == rows.len(),
    ensures
        grouped_as(res@, rows@, labels@, time_descending(sort, ascending)),
{
    let time_desc = !ascending && (sort == SortKey::Updated || sort == SortKey::Created);
    if rows.len() == 0 || !time_desc {
        let mut single = Vec::new();
        single.push(SessionGroup { label: GroupLabel::Flat, start: 0, end: rows.len() });
        assert(single@ =~= seq![SessionGroup { label: GroupLabel::Flat, start: 0, end: rows.len() }]);
        return single;
    }
    let p = count_pinned_prefix(rows);
    let runs = label_runs(labels, p);
    if p > 0 {
        let mut groups = Vec::new();
        groups.push(SessionGroup { label: GroupLabel::Pinned, start: 0, end: p });
        let mut k: usize = 0;
        while k < runs.len()
            invariant
                k <= runs.len(),
                groups.len() == k + 1,
                groups@[0] == (SessionGroup { label: GroupLabel::Pinned, start: 0, end: p }),
                forall|j: int| 0 <= j < k ==> groups@[j + 1] == runs@[j],
            decreases runs.len() - k,
        {
            groups.push(runs[k]);
            k += 1;
        }
        assert(groups@.drop_first() =~= runs@);
        groups
    } else {
        runs
    }
}

/// The sections of `rows` were built on `today` under `sort`.
/// `labels` are labels the unpinned rows may get on `today`, and a row
/// with the same timestamp as the unpinned row before it gets its label.
/// In a list sorted by time, newest first, the label of each unpinned row is
/// the label of its own timestamp.
pub open spec fn labels_fit(
    labels: Seq<GroupLabel>,
    rows: Seq<SessionListRow>,
    today: CalendarDate,
    time_desc: bool,
) -> bool {
    &&& labels.len() == rows.len()
    &&& forall|i: int|
        pinned_prefix(rows) <= i < labels.len() ==> possible_label(#[trigger] labels[i], today)
    &&& forall|i: int|
        pinned_prefix(rows) < i < labels.len() && rows[i].group_timestamp == rows[i
            - 1].group_timestamp ==> #[trigger] labels[i] == labels[i - 1]
    &&& time_desc ==> forall|i: int|
        pinned_prefix(rows) <= i < labels.len() ==> label_of_timestamp(
            #[trigger] labels[i],
            rows[i].group_timestamp,
            today,
        )
}

/// `groups` section `rows` as sorted by `sort` on `today`.
pub open spec fn sectioned_on(
    groups: Seq<SessionGroup>,
    rows: Seq<SessionListRow>,
    sort: SortKey,
    ascending: bool,
    today: CalendarDate,
) -> bool {
    exists|labels: Seq<GroupLabel>|
        labels_fit(labels, rows, today, time_descending(sort, ascending)) && grouped_as(
            groups,
            rows,
            labels,
            time_descending(sort, ascending),
        )
}

/// The sections of `rows` on `today`; each row's date label is the label of
/// its local day, which depends on the machine's time zone.
pub fn build_row_groups_at(
    rows: &[SessionListRow],
    sort: SortKey,
    ascending: bool,
    today: CalendarDate,
) -> (res: Vec<SessionGroup>)
    requires
        today.wf(),
        week_start_representable(today),
    ensures
        sectioned_on(res@, rows@, sort, ascending, today),
{
    let mut labels: Vec<GroupLabel> = Vec::new();
    let time_desc = !ascending && (sort == SortKey::Updated || sort == SortKey::Created);
    let p = count_pinned_prefix(rows);
    let mut i: usize = 0;
    while i < rows.len()
        invariant
            i <= rows.len(),
            labels.len() == i,
            today.wf(),
            week_start_representable(today),
            p == pinned_prefix(rows@),
            forall|j: int| p <= j < i ==> possible_label(#[trigger] labels@[j], today),
            forall|j: int|
                p < j < i && rows@[j].group_timestamp == rows@[j - 1].group_timestamp
                    ==> #[trigger] labels@[j] == labels@[j - 1],
            !time_desc ==> forall|j: int| 0 <= j < i ==> #[trigger] labels@[j] == GroupLabel::Undated,
            time_desc == time_descending(sort, ascending),
            time_desc ==> forall|j: int|
                p <= j < i ==> label_of_timestamp(#[trigger] labels@[j], rows@[j].group_timestamp, today),
        decreases rows.len() - i,
    {
        if i < p || !time_desc {
            labels.push(GroupLabel::Undated);
        } else if i > p && rows[i].group_timestamp == rows[i - 1].group_timestamp {
            // The local day of a timestamp does not change between rows.
            let same = labels[i - 1];
            labels.push(same);
        } else {
            labels.push(session_group_label(rows[i].group_timestamp, today));
        }
        i += 1;
    }
    proof {
        lemma_pinned_prefix_bounds(rows@);
        assert(labels_fit(labels@, rows@, today, time_desc));
    }
    groups_for_labels(rows, &labels, sort, ascending)
}

} // verus!

verus! {

/// The flat row at `row` of section `section`, if that position exists.
pub open spec fn spec_flat_index(groups: Seq<SessionGroup>, section: int, row: int) -> Option<int> {
    if 0 <= section < groups.len() && 0 <= row && groups[section].start + row
        < groups[section].end {
        Some(groups[section].start + row)
    } else {
        None
    }
}

pub open spec fn spec_index_path_from(groups: Seq<SessionGroup>, flat: int, k: int) -> Option<
    (int, int),
>
    decreases groups.len() - k,
{
    if k < 0 || k >= groups.len() {
        None
    } else if groups[k].start <= flat < groups[k].end {
        Some((k, flat - groups[k].start))
    } else {
        spec_index_path_from(groups, flat, k + 1)
    }
}

/// The (section, row) position of flat row `flat`: in the first section
/// whose range holds it.
pub open spec fn spec_index_path(groups: Seq<SessionGroup>, flat: int) -> Option<(int, int)> {
    spec_index_path_from(groups, flat, 0)
}

/// The flat row at (`section`, `row`).
pub fn flat_index(groups: &[SessionGroup], section: usize, row: usize) -> (res: Option<usize>)
    ensures
        res matches Some(f) ==> spec_flat_index(groups@, section as int, row as int) == Some(
            f as int,
        ),
        res is None ==> spec_flat_index(groups@, section as int, row as int) is None,
{
    if section >= groups.len() {
        return None;
    }
    let group = groups[section];
    match group.start.checked_add(row) {
        Some(flat) => if flat < group.end {
            Some(flat)
        } else {
            None
        },
        None => None,
    }
}

/// The (section, row) position of flat row `flat`.
pub fn index_path(groups: &[SessionGroup], flat: usize) -> (res: Option<(usize, usize)>)
    ensures
        res matches Some((s, r)) ==> spec_index_path(groups@, flat as int) == Some(
            (s as int, r as int),
        ),
        res is None ==> spec_index_path(groups@, flat as int) is None,
{
    let mut k: usize = 0;
    while k < groups.len()
        invariant
            k <= groups.len(),
            spec_index_path(groups@, flat as int) == spec_index_path_from(
                groups@,
                flat as int,
                k as int,
            ),
        decreases groups.len() - k,
    {
        let g = groups[k];
        if g.start <= flat && flat < g.end {
            return Some((k, flat - g.start));
        }
        k += 1;
    }
    None
}

/// Where a later section of maximal runs begins, the label changes.
pub(crate) proof fn lemma_run_boundary(
    groups: Seq<SessionGroup>,
    labels: Seq<GroupLabel>,
    lo: int,
    hi: int,
    j: int,
)
    requires
        tiles(groups, lo, hi),
        maximal_runs(groups, labels),
        1 <= j < groups.len(),
    ensures
        lo < groups[j].start,
        labels[groups[j].start - 1] != labels[groups[j].start as int],
{
    lemma_tiles_ordered(groups, lo, hi, 0, j);
    assert(groups[0].start < groups[0].end);
    assert(groups[j - 1].end == groups[j].start);
    assert(groups[j - 1].start < groups[j - 1].end);
    assert(labels[groups[j].start - 1] == groups[j - 1].label);
    assert(labels[groups[j].start as int] == groups[j].label);
}

proof fn lemma_tiles_ordered(groups: Seq<SessionGroup>, lo: int, hi: int, j: int, k: int)
    requires
        tiles(groups, lo, hi),
        0 <= j < k < groups.len(),
    ensures
        groups[j].end <= groups[k].start,
    decreases k - j,
{
    if j + 1 < k {
        lemma_tiles_ordered(groups, lo, hi, j + 1, k);
        assert(groups[j].end == groups[j + 1].start);
        assert(groups[j + 1].start < groups[j + 1].end);
    } else {
        assert(groups[j].end == groups[j + 1].start);
    }
}

proof fn lemma_index_path_from_finds(groups: Seq<SessionGroup>, lo: int, hi: int, flat: int, k: int, s: int)
    requires
        tiles(groups, lo, hi),
        0 <= k <= s < groups.len(),
        groups[s].start <= flat < groups[s].end,
    ensures
        spec_index_path_from(groups, flat, k) == Some((s, flat - groups[s].start)),
    decreases s - k,
{
    if k < s {
        lemma_tiles_ordered(groups, lo, hi, k, s);
        assert(groups[k].start < groups[k].end);
        lemma_index_path_from_finds(groups, lo, hi, flat, k + 1, s);
    }
}

/// The sections of a list of `n` rows: ranges tiling `0..n`, or the one
/// empty unlabeled section of an empty list.
pub open spec fn sections_ok(groups: Seq<SessionGroup>, n: int) -> bool {
    tiles(groups, 0, n) || (n == 0 && groups == seq![
        SessionGroup { label: GroupLabel::Flat, start: 0, end: 0 },
    ])
}

proof fn lemma_flat_section_ok(groups: Seq<SessionGroup>, n: int)
    requires
        0 <= n <= usize::MAX,
        groups == seq![SessionGroup { label: GroupLabel::Flat, start: 0, end: n as usize }],
    ensures
        sections_ok(groups, n),
{
    assert(groups.len() == 1);
    assert(groups.last() == groups[0]);
    if n > 0 {
        assert(tiles(groups, 0, n));
    }
}

proof fn lemma_pinned_sections_ok(groups: Seq<SessionGroup>, p: int, n: int)
    requires
        0 < p <= n <= usize::MAX,
        groups.len() > 0,
        groups[0] == (SessionGroup { label: GroupLabel::Pinned, start: 0, end: p as usize }),
        tiles(groups.drop_first(), p, n),
    ensures
        tiles(groups, 0, n),
{
    let rest = groups.drop_first();
    assert forall|k: int| 0 <= k < groups.len() implies #[trigger] groups[k].start
        < groups[k].end by {
        if k > 0 {
            assert(groups[k] == rest[k - 1]);
        }
    }
    assert forall|k: int| 0 <= k < groups.len() - 1 implies #[trigger] groups[k].end
        == groups[k + 1].start by {
        assert(groups[k + 1] == rest[k]);
        if k > 0 {
            assert(groups[k] == rest[k - 1]);
        }
    }
    if rest.len() > 0 {
        assert(groups.last() == rest.last());
    } else {
        assert(groups.len() == 1);
        assert(groups.last() == groups[0]);
    }
}

/// The sections built for a list are valid sections of it.
pub proof fn lemma_grouped_sections_ok(
    groups: Seq<SessionGroup>,
    rows: Seq<SessionListRow>,
    labels: Seq<GroupLabel>,
    time_desc: bool,
)
    requires
        grouped_as(groups, rows, labels, time_desc),
        rows.len() <= usize::MAX,
    ensures
        sections_ok(groups, rows.len() as int),
{
    let n = rows.len() as int;
    let p = pinned_prefix(rows);
    lemma_pinned_prefix_bounds(rows);
    if n == 0 || !time_desc {
        lemma_flat_section_ok(groups, n);
    } else if p > 0 {
        assert(tiles(groups.drop_first(), p, n));
        lemma_pinned_sections_ok(groups, p, n);
    } else {
        assert(tiles(groups, 0, n));
    }
}

/// Positions in a sectioned list round-trip: every flat row of a list whose
/// sections are valid has a (section, row) position, and that position
/// leads back to the same flat row; a (section, row) position that leads to
/// a flat row is the position of that row.
pub proof fn law_positions_round_trip(groups: Seq<SessionGroup>, n: int, flat: int, section: int, row: int)
    requires
        sections_ok(groups, n),
    ensures
        0 <= flat < n ==> (spec_index_path(groups, flat) matches Some((s, r)) && spec_flat_index(
            groups,
            s,
            r,
        ) == Some(flat)),
        spec_flat_index(groups, section, row) matches Some(f) ==> spec_index_path(groups, f)
            == Some((section, row)),
{
    if !tiles(groups, 0, n) {
        return;
    }
    if 0 <= flat < n {
        lemma_tiles_cover(groups, 0, n, flat);
        let s = choose|k: int| 0 <= k < groups.len() && #[trigger] groups[k].start <= flat < groups[k].end;
        lemma_index_path_from_finds(groups, 0, n, flat, 0, s);
    }
    if spec_flat_index(groups, section, row) is Some {
        let f = groups[section].start + row;
        lemma_index_path_from_finds(groups, 0, n, f, 0, section);
    }
}

} // verus!

verus! {

/// Sections built on some day are valid sections of the rows.
pub proof fn lemma_sectioned_sections_ok(
    groups: Seq<SessionGroup>,
    rows: Seq<SessionListRow>,
    sort: SortKey,
    ascending: bool,
    today: CalendarDate,
)
    requires
        sectioned_on(groups, rows, sort, ascending, today),
        rows.len() <= usize::MAX,
    ensures
        sections_ok(groups, rows.len() as int),
{
    let labels = choose|labels: Seq<GroupLabel>|
        labels_fit(labels, rows, today, time_descending(sort, ascending)) && grouped_as(
            groups,
            rows,
            labels,
            time_descending(sort, ascending),
        );
    lemma_grouped_sections_ok(groups, rows, labels, time_descending(sort, ascending));
}

} // verus!

verus! {

/// The date sections of one day's list: today and later read Today, the
/// day before Yesterday, every day from the Monday of today's week up to
/// the day before yesterday Earlier this week (whatever day of the week
/// today is), and a day before both the week's Monday and yesterday reads
/// as its month, with its year when that is not today's year.
pub proof fn law_week_sections(date: CalendarDate, today: CalendarDate)
    ensures
        date.day_number >= today.day_number ==> spec_label_for_date(date, today)
            == GroupLabel::Today,
        date.day_number == today.day_number - 1 ==> spec_label_for_date(date, today)
            == GroupLabel::Yesterday,
        today.day_number - today.weekday <= date.day_number < today.day_number - 1
            ==> spec_label_for_date(date, today) == GroupLabel::EarlierThisWeek,
        date.day_number < today.day_number - today.weekday && date.day_number < today.day_number
            - 1 && date.year == today.year ==> spec_label_for_date(date, today) == GroupLabel::Month(
            date.month,
        ),
        date.day_number < today.day_number - today.weekday && date.day_number < today.day_number
            - 1 && date.year != today.year ==> spec_label_for_date(date, today)
            == GroupLabel::MonthOfYear(date.month, date.year),
        spec_label_for_date(date, today) != GroupLabel::Undated,
        spec_label_for_date(date, today) != GroupLabel::Pinned,
        spec_label_for_date(date, today) != GroupLabel::Flat,
{
}

} // verus!
