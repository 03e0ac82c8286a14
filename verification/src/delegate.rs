//! The session list: root sessions loaded page by page, nested sessions
//! shown under expanded roots, and the date sections over the visible rows.
//! The index is queried by the caller; this state decides what to show.
use vstd::prelude::*;
use vstd::string::StrSliceExecFns;
use crate::calendar::CalendarDate;
use crate::groups::{
    build_row_groups_at, check_week_start, flat_index, grouped_as, index_path, lemma_sectioned_sections_ok,
    possible_label, sections_ok, sectioned_on, spec_flat_index, spec_index_path, week_start_representable,
    GroupLabel, SessionGroup, SessionListRow, SortKey, pinned_prefix, labels_fit,
    lemma_pinned_prefix_bounds, lemma_run_boundary, time_descending,
};
use crate::model::{duplicate_sessions, SessionMeta};
use crate::query::SessionFilter;

verus! {

/// How many nested sessions a root session has.
#[derive(Clone, Debug)]
pub struct ChildCount {
    pub key: String,
    pub count: i64,
}

/// The nested sessions loaded for an expanded root session.
#[derive(Clone, Debug)]
pub struct ChildList {
    pub parent: String,
    pub sessions: Vec<SessionMeta>,
}

/// Paging state of the root sessions.
#[derive(Clone, Debug)]
pub struct SessionPagination {
    pub filter: SessionFilter,
    /// Number of root sessions the query matches.
    pub total: i64,
    /// Offset of the next page to load.
    pub next_offset: i64,
    /// Identifies this list; answers for an older list are dropped.
    pub generation: u64,
    pub loading: bool,
    /// A page failed to load; paging stops until the list is rebuilt.
    pub failed: bool,
}

/// The visible session list.
pub struct SessionsDelegate {
    /// Root sessions in query order; only these advance paging.
    pub sessions: Vec<SessionMeta>,
    pub rows: Vec<SessionListRow>,
    pub children: Vec<ChildList>,
    pub child_counts: Vec<ChildCount>,
    pub expanded: Vec<String>,
    pub groups: Vec<SessionGroup>,
    pub grouped_on: CalendarDate,
    /// Language generation of the section labels.
    pub grouped_lang: u64,
    pub sort: SortKey,
    pub ascending: bool,
    pub pagination: Option<SessionPagination>,
}

/// The nested-session count recorded for `key` (0 when none is).
pub open spec fn count_of(counts: Seq<ChildCount>, key: Seq<char>) -> i64
    decreases counts.len(),
{
    if counts.len() == 0 {
        0
    } else if counts[0].key@ == key {
        counts[0].count
    } else {
        count_of(counts.drop_first(), key)
    }
}

/// The nested sessions loaded for `key`.
pub open spec fn children_of(lists: Seq<ChildList>, key: Seq<char>) -> Option<Seq<SessionMeta>>
    decreases lists.len(),
{
    if lists.len() == 0 {
        None
    } else if lists[0].parent@ == key {
        Some(lists[0].sessions@)
    } else {
        children_of(lists.drop_first(), key)
    }
}

/// `key` is one of `keys`.
pub open spec fn key_listed(keys: Seq<String>, key: Seq<char>) -> bool {
    exists|i: int| 0 <= i < keys.len() && #[trigger] keys[i]@ == key
}

/// The timestamp a session is dated by under `sort`.
pub open spec fn spec_group_timestamp(s: SessionMeta, sort: SortKey) -> i64 {
    match sort {
        SortKey::Created => s.created_at,
        _ => s.updated_at,
    }
}

/// The row of a root session.
pub open spec fn root_row(
    root: SessionMeta,
    tree: bool,
    counts: Seq<ChildCount>,
    expanded: Seq<String>,
    sort: SortKey,
) -> SessionListRow {
    let child_count = if tree {
        count_of(counts, root.key@)
    } else {
        0
    };
    SessionListRow {
        meta: root,
        depth: 0,
        child_count,
        expanded: child_count > 0 && key_listed(expanded, root.key@),
        group_timestamp: spec_group_timestamp(root, sort),
        group_pinned: root.pinned,
    }
}

/// The row of a nested session under the row of its root.
pub open spec fn child_row(child: SessionMeta, parent: SessionListRow) -> SessionListRow {
    SessionListRow {
        meta: child,
        depth: 1,
        child_count: 0,
        expanded: false,
        group_timestamp: parent.group_timestamp,
        group_pinned: parent.group_pinned,
    }
}

/// The nested sessions shown under an expanded root row.
pub open spec fn shown_children(parent: SessionListRow, lists: Seq<ChildList>) -> Seq<SessionMeta> {
    if parent.expanded {
        match children_of(lists, parent.meta.key@) {
            Some(c) => c,
            None => Seq::empty(),
        }
    } else {
        Seq::empty()
    }
}

/// The rows of one root: its own row, then its shown nested sessions.
pub open spec fn rows_of_root(
    root: SessionMeta,
    tree: bool,
    counts: Seq<ChildCount>,
    expanded: Seq<String>,
    lists: Seq<ChildList>,
    sort: SortKey,
) -> Seq<SessionListRow> {
    let r = root_row(root, tree, counts, expanded, sort);
    seq![r] + shown_children(r, lists).map_values(|c: SessionMeta| child_row(c, r))
}

/// The visible rows: each root followed by its shown nested sessions.
pub open spec fn spec_rows(
    roots: Seq<SessionMeta>,
    tree: bool,
    counts: Seq<ChildCount>,
    expanded: Seq<String>,
    lists: Seq<ChildList>,
    sort: SortKey,
) -> Seq<SessionListRow>
    decreases roots.len(),
{
    if roots.len() == 0 {
        Seq::empty()
    } else {
        spec_rows(roots.drop_last(), tree, counts, expanded, lists, sort) + rows_of_root(
            roots.last(),
            tree,
            counts,
            expanded,
            lists,
            sort,
        )
    }
}

fn count_for(counts: &Vec<ChildCount>, key: &String) -> (res: i64)
    ensures
        res == count_of(counts@, key@),
{
    let mut i: usize = 0;
    assert(counts@.subrange(0, counts@.len() as int) =~= counts@);
    while i < counts.len()
        invariant
            i <= counts.len(),
            count_of(counts@, key@) == count_of(counts@.subrange(i as int, counts@.len() as int), key@),
        decreases counts.len() - i,
    {
        if counts[i].key == *key {
            return counts[i].count;
        }
        proof {
            let rest = counts@.subrange(i as int, counts@.len() as int);
            assert(rest.drop_first() =~= counts@.subrange(i + 1, counts@.len() as int));
        }
        i += 1;
    }
    0
}

fn children_index(lists: &Vec<ChildList>, key: &String) -> (res: Option<usize>)
    ensures
        res matches Some(k) ==> k < lists.len() && children_of(lists@, key@) == Some(
            lists@[k as int].sessions@,
        ) && lists@[k as int].parent@ == key@,
        res is None ==> children_of(lists@, key@) is None,
{
    let mut i: usize = 0;
    assert(lists@.subrange(0, lists@.len() as int) =~= lists@);
    while i < lists.len()
        invariant
            i <= lists.len(),
            children_of(lists@, key@) == children_of(lists@.subrange(i as int, lists@.len() as int), key@),
        decreases lists.len() - i,
    {
        if lists[i].parent == *key {
            return Some(i);
        }
        proof {
            let rest = lists@.subrange(i as int, lists@.len() as int);
            assert(rest.drop_first() =~= lists@.subrange(i + 1, lists@.len() as int));
        }
        i += 1;
    }
    None
}

/// Whether `key` is one of `keys`.
pub fn key_in(keys: &Vec<String>, key: &String) -> (res: bool)
    ensures
        res == key_listed(keys@, key@),
{
    let mut i: usize = 0;
    while i < keys.len()
        invariant
            i <= keys.len(),
            forall|k: int| 0 <= k < i ==> #[trigger] keys@[k]@ != key@,
        decreases keys.len() - i,
    {
        if keys[i] == *key {
            return true;
        }
        i += 1;
    }
    false
}

} // verus!

verus! {

/// Sessions under `sort` are dated by creation time or by update time.
pub fn group_timestamp(s: &SessionMeta, sort: SortKey) -> (res: i64)
    ensures
        res == spec_group_timestamp(*s, sort),
{
    match sort {
        SortKey::Created => s.created_at,
        _ => s.updated_at,
    }
}

impl SessionsDelegate {
    /// Nested sessions are shown under their roots: the list pages root
    /// sessions only.
    pub open spec fn spec_tree_mode(&self) -> bool {
        self.pagination matches Some(p) && p.filter.roots_only
    }

    /// The rows the list must show.
    pub open spec fn expected_rows(&self) -> Seq<SessionListRow> {
        spec_rows(
            self.sessions@,
            self.spec_tree_mode(),
            self.child_counts@,
            self.expanded@,
            self.children@,
            self.sort,
        )
    }

    /// The rows match the roots, counts and expansions, and the sections
    /// are valid sections of the rows.
    pub open spec fn wf(&self) -> bool {
        &&& self.rows@ == self.expected_rows()
        &&& sections_ok(self.groups@, self.rows@.len() as int)
    }

    /// Whether nested sessions are shown under their roots.
    pub fn tree_mode(&self) -> (res: bool)
        ensures
            res == self.spec_tree_mode(),
    {
        match &self.pagination {
            Some(p) => p.filter.roots_only,
            None => false,
        }
    }

    fn build_rows(&self) -> (res: Vec<SessionListRow>)
        ensures
            res@ == self.expected_rows(),
    {
        let tree = self.tree_mode();
        let mut rows: Vec<SessionListRow> = Vec::new();
        let mut i: usize = 0;
        while i < self.sessions.len()
            invariant
                i <= self.sessions.len(),
                tree == self.spec_tree_mode(),
                rows@ == spec_rows(
                    self.sessions@.take(i as int),
                    tree,
                    self.child_counts@,
                    self.expanded@,
                    self.children@,
                    self.sort,
                ),
            decreases self.sessions.len() - i,
        {
            let root = &self.sessions[i];
            let child_count = if tree {
                count_for(&self.child_counts, &root.key)
            } else {
                0
            };
            let expanded = child_count > 0 && key_in(&self.expanded, &root.key);
            let ts = group_timestamp(root, self.sort);
            let row = SessionListRow {
                meta: root.duplicate(),
                depth: 0,
                child_count,
                expanded,
                group_timestamp: ts,
                group_pinned: root.pinned,
            };
            let ghost r = row;
            let ghost base = rows@;
            assert(r == root_row(*root, tree, self.child_counts@, self.expanded@, self.sort));
            rows.push(row);
            let ghost kids = shown_children(r, self.children@);
            if expanded {
                match children_index(&self.children, &root.key) {
                    Some(k) => {
                        let list = &self.children[k].sessions;
                        let mut j: usize = 0;
                        while j < list.len()
                            invariant
                                j <= list.len(),
                                kids == list@,
                                r.group_timestamp == ts,
                                r.group_pinned == root.pinned,
                                rows@ == base.push(r) + kids.take(j as int).map_values(
                                    |c: SessionMeta| child_row(c, r),
                                ),
                            decreases list.len() - j,
                        {
                            let cr = SessionListRow {
                                meta: list[j].duplicate(),
                                depth: 1,
                                child_count: 0,
                                expanded: false,
                                group_timestamp: ts,
                                group_pinned: root.pinned,
                            };
                            assert(cr.meta == kids[j as int]);
                            assert(cr.group_timestamp == r.group_timestamp);
                            assert(cr.group_pinned == r.group_pinned);
                            assert(cr == child_row(kids[j as int], r));
                            let ghost before = rows@;
                            rows.push(cr);
                            proof {
                                assert(rows@ == before.push(cr));
                                assert(kids.take(j + 1 as int).map_values(
                                    |c: SessionMeta| child_row(c, r),
                                ) =~= kids.take(j as int).map_values(
                                    |c: SessionMeta| child_row(c, r),
                                ).push(child_row(kids[j as int], r)));
                            }
                            j += 1;
                        }
                        assert(kids.take(list@.len() as int) =~= kids);
                    },
                    None => {
                        assert(kids.map_values(|c: SessionMeta| child_row(c, r)) =~= Seq::<
                            SessionListRow,
                        >::empty());
                    },
                }
            } else {
                assert(kids.map_values(|c: SessionMeta| child_row(c, r)) =~= Seq::<
                    SessionListRow,
                >::empty());
            }
            proof {
                let t = self.sessions@.take(i + 1 as int);
                assert(t.drop_last() =~= self.sessions@.take(i as int));
                assert(t.last() == *root);
                assert(rows@ =~= base + rows_of_root(
                    *root,
                    tree,
                    self.child_counts@,
                    self.expanded@,
                    self.children@,
                    self.sort,
                ));
            }
            i += 1;
        }
        assert(self.sessions@.take(self.sessions@.len() as int) =~= self.sessions@);
        rows
    }

    /// Rebuilds the rows and their sections for `today`.
    pub fn rebuild_rows_at(&mut self, today: CalendarDate)
        requires
            today.wf(),
            week_start_representable(today),
        ensures
            final(self).wf(),
            sectioned_on(final(self).groups@, final(self).rows@, final(self).sort, final(self).ascending, today),
            final(self).grouped_on == today,
            final(self).sessions == old(self).sessions,
            final(self).children == old(self).children,
            final(self).child_counts == old(self).child_counts,
            final(self).expanded == old(self).expanded,
            final(self).grouped_lang == old(self).grouped_lang,
            final(self).sort == old(self).sort,
            final(self).ascending == old(self).ascending,
            final(self).pagination == old(self).pagination,
    {
        let rows = self.build_rows();
        let n = rows.len();
        let groups = build_row_groups_at(rows.as_slice(), self.sort, self.ascending, today);
        proof {
            lemma_sectioned_sections_ok(groups@, rows@, self.sort, self.ascending, today);
        }
        let ghost sort = self.sort;
        let ghost ascending = self.ascending;
        assert(sectioned_on(groups@, rows@, sort, ascending, today));
        self.rows = rows;
        self.groups = groups;
        self.grouped_on = today;
    }
}

} // verus!

verus! {

/// `s` holds a session with key `k`.
pub open spec fn has_key(s: Seq<SessionMeta>, k: Seq<char>) -> bool {
    exists|i: int| 0 <= i < s.len() && #[trigger] s[i].key@ == k
}

/// `existing` followed by the sessions of `page` whose key is not yet
/// listed, in page order; a key repeated within the page counts once.
pub open spec fn spec_dedup_append(existing: Seq<SessionMeta>, page: Seq<SessionMeta>) -> Seq<
    SessionMeta,
>
    decreases page.len(),
{
    if page.len() == 0 {
        existing
    } else {
        let prev = spec_dedup_append(existing, page.drop_last());
        if has_key(prev, page.last().key@) {
            prev
        } else {
            prev.push(page.last())
        }
    }
}

/// `keys` without any occurrence of `k`.
pub open spec fn without_key(keys: Seq<String>, k: Seq<char>) -> Seq<String>
    decreases keys.len(),
{
    if keys.len() == 0 {
        keys
    } else {
        let prev = without_key(keys.drop_last(), k);
        if keys.last()@ == k {
            prev
        } else {
            prev.push(keys.last())
        }
    }
}

/// `lists` without the list loaded for `k`.
pub open spec fn without_children(lists: Seq<ChildList>, k: Seq<char>) -> Seq<ChildList>
    decreases lists.len(),
{
    if lists.len() == 0 {
        lists
    } else {
        let prev = without_children(lists.drop_last(), k);
        if lists.last().parent@ == k {
            prev
        } else {
            prev.push(lists.last())
        }
    }
}

/// The keys of `keys` that name one of `roots`, in order.
pub open spec fn keys_of_roots(keys: Seq<String>, roots: Seq<SessionMeta>) -> Seq<String>
    decreases keys.len(),
{
    if keys.len() == 0 {
        keys
    } else {
        let prev = keys_of_roots(keys.drop_last(), roots);
        if has_key(roots, keys.last()@) {
            prev.push(keys.last())
        } else {
            prev
        }
    }
}

/// `a + b`, saturated to the range of `i64`.
pub open spec fn saturating_add(a: i64, b: i64) -> i64 {
    if a + b > i64::MAX {
        i64::MAX
    } else if a + b < i64::MIN {
        i64::MIN
    } else {
        (a + b) as i64
    }
}

pub open spec fn max_i64(a: i64, b: i64) -> i64 {
    if a >= b {
        a
    } else {
        b
    }
}

pub open spec fn min_i64(a: i64, b: i64) -> i64 {
    if a <= b {
        a
    } else {
        b
    }
}

/// A count as an `i64`, saturated at `i64::MAX`.
pub open spec fn count_as_i64(n: int) -> i64 {
    if n > i64::MAX {
        i64::MAX
    } else {
        n as i64
    }
}

/// A length as an `i64`, saturated at `i64::MAX`.
pub fn len_as_i64(n: usize) -> (res: i64)
    ensures
        res == count_as_i64(n as int),
{
    if n as u64 > 0x7fff_ffff_ffff_ffffu64 {
        i64::MAX
    } else {
        n as i64
    }
}

/// What toggling a row does.
#[derive(Clone, Copy, Debug, PartialEq, Eq, Structural)]
pub enum TogglePlan {
    /// The row has no nested sessions to show, or the list is flat.
    Unavailable,
    /// The row is expanded and will be collapsed.
    Collapse,
    /// The row will be expanded once its nested sessions are loaded.
    Expand,
}

/// A page of root sessions to load.
#[derive(Clone, Copy, Debug, PartialEq, Eq)]
pub struct PageRequest {
    pub generation: u64,
    pub offset: i64,
    pub limit: i64,
}

fn saturating_add_i64(a: i64, b: i64) -> (res: i64)
    ensures
        res == saturating_add(a, b),
{
    match a.checked_add(b) {
        Some(v) => v,
        None => if b > 0 {
            i64::MAX
        } else {
            i64::MIN
        },
    }
}

fn session_key_in(sessions: &Vec<SessionMeta>, key: &String) -> (res: bool)
    ensures
        res == has_key(sessions@, key@),
{
    let mut i: usize = 0;
    while i < sessions.len()
        invariant
            i <= sessions.len(),
            forall|k: int| 0 <= k < i ==> #[trigger] sessions@[k].key@ != key@,
        decreases sessions.len() - i,
    {
        if sessions[i].key == *key {
            return true;
        }
        i += 1;
    }
    false
}

fn remove_key(keys: &Vec<String>, key: &String) -> (res: Vec<String>)
    ensures
        res@ == without_key(keys@, key@),
{
    let mut out: Vec<String> = Vec::new();
    let mut i: usize = 0;
    while i < keys.len()
        invariant
            i <= keys.len(),
            out@ == without_key(keys@.take(i as int), key@),
        decreases keys.len() - i,
    {
        proof {
            let t = keys@.take(i + 1 as int);
            assert(t.drop_last() =~= keys@.take(i as int));
            assert(t.last() == keys@[i as int]);
        }
        if keys[i] != *key {
            out.push(keys[i].clone());
        }
        i += 1;
    }
    assert(keys@.take(keys@.len() as int) =~= keys@);
    out
}

fn remove_children(lists: Vec<ChildList>, key: &String) -> (res: Vec<ChildList>)
    ensures
        res@ == without_children(lists@, key@),
{
    let ghost orig = lists@;
    let n = lists.len();
    let mut rest = lists;
    let mut out: Vec<ChildList> = Vec::new();
    let mut i: usize = 0;
    while rest.len() > 0
        invariant
            i <= orig.len(),
            orig.len() == n,
            rest@ == orig.subrange(i as int, orig.len() as int),
            out@ == without_children(orig.take(i as int), key@),
        decreases rest.len(),
    {
        let item = rest.remove(0);
        proof {
            let t = orig.take(i + 1 as int);
            assert(t.drop_last() =~= orig.take(i as int));
            assert(t.last() == orig[i as int]);
            assert(rest@ =~= orig.subrange(i + 1, orig.len() as int));
        }
        if item.parent != *key {
            out.push(item);
        }
        i += 1;
    }
    assert(orig.take(orig.len() as int) =~= orig);
    out
}

} // verus!

verus! {

impl SessionsDelegate {
    /// A flat list of `sessions`, sectioned on `today`.
    pub fn new_at(
        sessions: Vec<SessionMeta>,
        sort: SortKey,
        ascending: bool,
        today: CalendarDate,
        lang: u64,
    ) -> (res: Self)
        requires
            today.wf(),
            week_start_representable(today),
        ensures
            res.wf(),
            res.sessions@ == sessions@,
            res.children@.len() == 0,
            res.child_counts@.len() == 0,
            res.expanded@.len() == 0,
            res.pagination is None,
            res.sort == sort,
            res.ascending == ascending,
            res.grouped_on == today,
            res.grouped_lang == lang,
            sectioned_on(res.groups@, res.rows@, sort, ascending, today),
    {
        let mut d = SessionsDelegate {
            sessions,
            rows: Vec::new(),
            children: Vec::new(),
            child_counts: Vec::new(),
            expanded: Vec::new(),
            groups: Vec::new(),
            grouped_on: today,
            grouped_lang: lang,
            sort,
            ascending,
            pagination: None,
        };
        d.rebuild_rows_at(today);
        d
    }

    /// A flat list of `sessions`, sectioned on today's local day; `None`
    /// when the system clock cannot be read (see `CalendarDate::today`).
    /// Today's week always begins within chrono's calendar.
    pub fn new(sessions: Vec<SessionMeta>, sort: SortKey, ascending: bool, lang: u64) -> (res:
        Option<Self>)
        ensures
            res matches Some(d) ==> {
                &&& d.wf()
                &&& d.sessions@ == sessions@
                &&& d.children@.len() == 0
                &&& d.child_counts@.len() == 0
                &&& d.expanded@.len() == 0
                &&& d.pagination is None
                &&& d.sort == sort
                &&& d.ascending == ascending
                &&& d.grouped_lang == lang
                &&& d.grouped_on.wf()
                &&& sectioned_on(d.groups@, d.rows@, sort, ascending, d.grouped_on)
            },
    {
        match CalendarDate::today() {
            Some(today) => if check_week_start(today) {
                Some(Self::new_at(sessions, sort, ascending, today, lang))
            } else {
                None
            },
            None => None,
        }
    }

    /// A paged list of the first root sessions of `filter`, with `total`
    /// sessions in all. `child_counts` are the nested-session counts of the
    /// query; they are kept only when the query lists roots only.
    pub fn paged(
        sessions: Vec<SessionMeta>,
        filter: SessionFilter,
        total: i64,
        child_counts: Vec<ChildCount>,
        generation: u64,
        today: CalendarDate,
        lang: u64,
    ) -> (res: Self)
        requires
            today.wf(),
            week_start_representable(today),
        ensures
            res.wf(),
            res.sessions@ == sessions@,
            res.children@.len() == 0,
            res.child_counts@ == (if filter.roots_only {
                child_counts@
            } else {
                Seq::<ChildCount>::empty()
            }),
            res.expanded@.len() == 0,
            res.pagination == Some(
                SessionPagination {
                    filter,
                    total: max_i64(total, 0),
                    next_offset: count_as_i64(sessions@.len() as int),
                    generation,
                    loading: false,
                    failed: false,
                },
            ),
            res.sort == filter.sort,
            res.ascending == filter.ascending,
            res.grouped_on == today,
            res.grouped_lang == lang,
            sectioned_on(res.groups@, res.rows@, filter.sort, filter.ascending, today),
    {
        let n = sessions.len();
        let counts = if filter.roots_only {
            child_counts
        } else {
            Vec::new()
        };
        let sort = filter.sort;
        let ascending = filter.ascending;
        let mut d = SessionsDelegate {
            sessions,
            rows: Vec::new(),
            children: Vec::new(),
            child_counts: counts,
            expanded: Vec::new(),
            groups: Vec::new(),
            grouped_on: today,
            grouped_lang: lang,
            sort,
            ascending,
            pagination: Some(
                SessionPagination {
                    filter,
                    total: if total >= 0 {
                        total
                    } else {
                        0
                    },
                    next_offset: len_as_i64(n),
                    generation,
                    loading: false,
                    failed: false,
                },
            ),
        };
        d.rebuild_rows_at(today);
        d
    }

    /// Re-sections the rows when the day or the interface language changed
    /// since they were sectioned; returns whether the sections changed.
    pub fn rebuild_groups_at(&mut self, today: CalendarDate, lang: u64) -> (changed: bool)
        requires
            old(self).wf(),
            today.wf(),
            week_start_representable(today),
        ensures
            final(self).wf(),
            final(self).rows == old(self).rows,
            final(self).sessions == old(self).sessions,
            final(self).children == old(self).children,
            final(self).child_counts == old(self).child_counts,
            final(self).expanded == old(self).expanded,
            final(self).sort == old(self).sort,
            final(self).ascending == old(self).ascending,
            final(self).pagination == old(self).pagination,
            old(self).grouped_on == today && old(self).grouped_lang == lang ==> !changed
                && final(self).groups == old(self).groups && final(self).grouped_on
                == old(self).grouped_on && final(self).grouped_lang == old(self).grouped_lang,
            !(old(self).grouped_on == today && old(self).grouped_lang == lang) ==> {
                &&& final(self).grouped_on == today
                &&& final(self).grouped_lang == lang
                &&& sectioned_on(
                    final(self).groups@,
                    final(self).rows@,
                    final(self).sort,
                    final(self).ascending,
                    today,
                )
                &&& changed == (final(self).groups@ != old(self).groups@)
            },
    {
        if self.grouped_on == today && self.grouped_lang == lang {
            return false;
        }
        self.grouped_lang = lang;
        let groups = build_row_groups_at(self.rows.as_slice(), self.sort, self.ascending, today);
        let n = self.rows.len();
        proof {
            lemma_sectioned_sections_ok(groups@, self.rows@, self.sort, self.ascending, today);
        }
        let changed = !same_groups(&groups, &self.groups);
        self.groups = groups;
        self.grouped_on = today;
        changed
    }

    /// Appends a loaded page of root sessions, skipping sessions already
    /// listed. In tree mode the nested-session counts are replaced by
    /// `child_counts`, read again for the grown list.
    pub fn append_sessions(
        &mut self,
        page: Vec<SessionMeta>,
        child_counts: Vec<ChildCount>,
        today: CalendarDate,
    )
        requires
            today.wf(),
            week_start_representable(today),
        ensures
            final(self).wf(),
            final(self).sessions@ == spec_dedup_append(old(self).sessions@, page@),
            final(self).child_counts@ == (if old(self).spec_tree_mode() {
                child_counts@
            } else {
                old(self).child_counts@
            }),
            final(self).children == old(self).children,
            final(self).expanded == old(self).expanded,
            final(self).sort == old(self).sort,
            final(self).ascending == old(self).ascending,
            final(self).pagination == old(self).pagination,
            final(self).grouped_lang == old(self).grouped_lang,
            final(self).grouped_on == today,
            sectioned_on(
                final(self).groups@,
                final(self).rows@,
                final(self).sort,
                final(self).ascending,
                today,
            ),
    {
        let mut i: usize = 0;
        let ghost start = self.sessions@;
        while i < page.len()
            invariant
                i <= page.len(),
                self.sessions@ == spec_dedup_append(start, page@.take(i as int)),
                self.children == old(self).children,
                self.child_counts == old(self).child_counts,
                self.expanded == old(self).expanded,
                self.sort == old(self).sort,
                self.ascending == old(self).ascending,
                self.pagination == old(self).pagination,
                self.grouped_lang == old(self).grouped_lang,
            decreases page.len() - i,
        {
            proof {
                let t = page@.take(i + 1 as int);
                assert(t.drop_last() =~= page@.take(i as int));
                assert(t.last() == page@[i as int]);
            }
            if !session_key_in(&self.sessions, &page[i].key) {
                self.sessions.push(page[i].duplicate());
            }
            i += 1;
        }
        assert(page@.take(page@.len() as int) =~= page@);
        if self.tree_mode() {
            self.child_counts = child_counts;
        }
        self.rebuild_rows_at(today);
    }
}

fn same_groups(a: &Vec<SessionGroup>, b: &Vec<SessionGroup>) -> (res: bool)
    ensures
        res == (a@ == b@),
{
    if a.len() != b.len() {
        return false;
    }
    let mut i: usize = 0;
    while i < a.len()
        invariant
            i <= a.len(),
            a.len() == b.len(),
            forall|k: int| 0 <= k < i ==> a@[k] == b@[k],
        decreases a.len() - i,
    {
        if a[i] != b[i] {
            return false;
        }
        i += 1;
    }
    assert(a@ =~= b@);
    true
}

} // verus!

verus! {

impl SessionsDelegate {
    /// Keeps, in tree mode, the expansions of a previous list whose roots
    /// are still listed; the caller then loads their nested sessions.
    pub fn restore_expanded(&mut self, expanded: Vec<String>)
        ensures
            final(self).expanded@ == (if old(self).spec_tree_mode() {
                keys_of_roots(expanded@, old(self).sessions@)
            } else {
                old(self).expanded@
            }),
            final(self).sessions == old(self).sessions,
            final(self).rows == old(self).rows,
            final(self).groups == old(self).groups,
            final(self).children == old(self).children,
            final(self).child_counts == old(self).child_counts,
            final(self).pagination == old(self).pagination,
            final(self).sort == old(self).sort,
            final(self).ascending == old(self).ascending,
            final(self).grouped_on == old(self).grouped_on,
            final(self).grouped_lang == old(self).grouped_lang,
    {
        if !self.tree_mode() {
            return;
        }
        let mut kept: Vec<String> = Vec::new();
        let mut i: usize = 0;
        while i < expanded.len()
            invariant
                i <= expanded.len(),
                kept@ == keys_of_roots(expanded@.take(i as int), self.sessions@),
            decreases expanded.len() - i,
        {
            proof {
                let t = expanded@.take(i + 1 as int);
                assert(t.drop_last() =~= expanded@.take(i as int));
                assert(t.last() == expanded@[i as int]);
            }
            if session_key_in(&self.sessions, &expanded[i]) {
                kept.push(expanded[i].clone());
            }
            i += 1;
        }
        assert(expanded@.take(expanded@.len() as int) =~= expanded@);
        self.expanded = kept;
    }

    /// Replaces the loaded nested sessions with `loaded`, read for the
    /// expanded roots, and rebuilds the rows. A list without paging keeps
    /// its state.
    pub fn reload_expanded(&mut self, loaded: Vec<ChildList>, today: CalendarDate)
        requires
            old(self).wf(),
            today.wf(),
            week_start_representable(today),
        ensures
            final(self).wf(),
            old(self).pagination is None ==> *final(self) == *old(self),
            old(self).pagination is Some ==> final(self).children@ == loaded@
                && final(self).grouped_on == today && sectioned_on(
                final(self).groups@,
                final(self).rows@,
                final(self).sort,
                final(self).ascending,
                today,
            ),
            final(self).sessions == old(self).sessions,
            final(self).child_counts == old(self).child_counts,
            final(self).expanded == old(self).expanded,
            final(self).pagination == old(self).pagination,
            final(self).sort == old(self).sort,
            final(self).ascending == old(self).ascending,
            final(self).grouped_lang == old(self).grouped_lang,
    {
        if self.pagination.is_none() {
            return;
        }
        self.children = loaded;
        self.rebuild_rows_at(today);
    }

    /// What toggling the row of `key` would do.
    pub fn toggle_plan(&self, key: &String) -> (res: TogglePlan)
        ensures
            res == (if !self.spec_tree_mode() || count_of(self.child_counts@, key@) == 0 {
                TogglePlan::Unavailable
            } else if key_listed(self.expanded@, key@) {
                TogglePlan::Collapse
            } else {
                TogglePlan::Expand
            }),
    {
        if !self.tree_mode() || count_for(&self.child_counts, key) == 0 {
            TogglePlan::Unavailable
        } else if key_in(&self.expanded, key) {
            TogglePlan::Collapse
        } else {
            TogglePlan::Expand
        }
    }

    /// Expands or collapses the row of `key`. Expanding needs the nested
    /// sessions read from the index (`fetched`); without them nothing
    /// changes. Returns whether the row changed.
    pub fn toggle(&mut self, key: &String, fetched: Option<Vec<SessionMeta>>, today: CalendarDate) -> (changed: bool)
        requires
            old(self).wf(),
            today.wf(),
            week_start_representable(today),
        ensures
            final(self).wf(),
            final(self).sessions == old(self).sessions,
            final(self).child_counts == old(self).child_counts,
            final(self).pagination == old(self).pagination,
            final(self).sort == old(self).sort,
            final(self).ascending == old(self).ascending,
            final(self).grouped_lang == old(self).grouped_lang,
            ({
                let plan = if !old(self).spec_tree_mode() || count_of(old(self).child_counts@, key@)
                    == 0 {
                    TogglePlan::Unavailable
                } else if key_listed(old(self).expanded@, key@) {
                    TogglePlan::Collapse
                } else {
                    TogglePlan::Expand
                };
                &&& (plan == TogglePlan::Unavailable || (plan == TogglePlan::Expand && fetched is None))
                    ==> !changed && *final(self) == *old(self)
                &&& plan == TogglePlan::Collapse ==> changed && final(self).expanded@ == without_key(
                    old(self).expanded@,
                    key@,
                ) && final(self).children@ == without_children(old(self).children@, key@)
                &&& (plan == TogglePlan::Expand && fetched is Some) ==> changed
                    && final(self).expanded@ == old(self).expanded@.push(*key)
                    && final(self).children@ == without_children(old(self).children@, key@).push(
                    ChildList { parent: *key, sessions: fetched->0 },
                )
                &&& changed ==> final(self).grouped_on == today && sectioned_on(
                    final(self).groups@,
                    final(self).rows@,
                    final(self).sort,
                    final(self).ascending,
                    today,
                )
            }),
    {
        let plan = self.toggle_plan(key);
        match plan {
            TogglePlan::Unavailable => false,
            TogglePlan::Collapse => {
                self.expanded = remove_key(&self.expanded, key);
                let mut lists: Vec<ChildList> = Vec::new();
                std::mem::swap(&mut lists, &mut self.children);
                self.children = remove_children(lists, key);
                self.rebuild_rows_at(today);
                true
            },
            TogglePlan::Expand => {
                match fetched {
                    None => false,
                    Some(sessions) => {
                        self.expanded.push(key.clone());
                        let mut taken: Vec<ChildList> = Vec::new();
                        std::mem::swap(&mut taken, &mut self.children);
                        let mut lists = remove_children(taken, key);
                        lists.push(ChildList { parent: key.clone(), sessions });
                        self.children = lists;
                        self.rebuild_rows_at(today);
                        true
                    },
                }
            },
        }
    }

    /// Makes sure the row of `key` is expanded; returns whether it is.
    pub fn ensure_expanded(&mut self, key: &String, fetched: Option<Vec<SessionMeta>>, today: CalendarDate) -> (res: bool)
        requires
            old(self).wf(),
            today.wf(),
            week_start_representable(today),
        ensures
            final(self).wf(),
            key_listed(old(self).expanded@, key@) ==> res && *final(self) == *old(self),
            res ==> key_listed(final(self).expanded@, key@),
            final(self).sessions == old(self).sessions,
            final(self).pagination == old(self).pagination,
    {
        if key_in(&self.expanded, key) {
            return true;
        }
        let changed = self.toggle(key, fetched, today);
        proof {
            if changed {
                assert(self.expanded@.last() == *key);
                assert(self.expanded@[self.expanded@.len() - 1]@ == key@);
            }
        }
        changed
    }
}

} // verus!

verus! {

/// The first row of `rows` whose session has key `key`.
pub open spec fn first_row_with(rows: Seq<SessionListRow>, key: Seq<char>, i: int) -> bool {
    0 <= i < rows.len() && rows[i].meta.key@ == key && forall|j: int|
        0 <= j < i ==> #[trigger] rows[j].meta.key@ != key
}

/// The outcome of loading a page that was requested at `query_offset`:
/// the new total and the offset of the next page. An empty page ends
/// paging; an offset never moves back, and never past the total.
pub open spec fn spec_next_offset(current: i64, query_offset: i64, received: int, total: i64) -> i64 {
    let t = max_i64(total, 0);
    let next = if received == 0 {
        t
    } else {
        min_i64(saturating_add(query_offset, count_as_i64(received)), t)
    };
    min_i64(max_i64(current, next), t)
}

/// The first row showing the session `key`.
pub open spec fn spec_row_position(rows: Seq<SessionListRow>, key: Seq<char>) -> Option<int> {
    if exists|i: int| first_row_with(rows, key, i) {
        Some(choose|i: int| first_row_with(rows, key, i))
    } else {
        None
    }
}

proof fn lemma_first_row_unique(rows: Seq<SessionListRow>, key: Seq<char>, i: int)
    requires
        first_row_with(rows, key, i),
    ensures
        spec_row_position(rows, key) == Some(i),
{
    let j = choose|j: int| first_row_with(rows, key, j);
    assert(first_row_with(rows, key, j));
    if j < i {
        assert(rows[j].meta.key@ != key);
    }
    if i < j {
        assert(rows[i].meta.key@ != key);
    }
}

impl SessionsDelegate {
    /// The session key of the row at (`section`, `row`), if there is one.
    pub open spec fn spec_row_key(&self, section: int, row: int) -> Option<Seq<char>> {
        match spec_flat_index(self.groups@, section, row) {
            Some(f) => if 0 <= f < self.rows@.len() {
                Some(self.rows@[f].meta.key@)
            } else {
                None
            },
            None => None,
        }
    }

    /// The (section, row) position of the row showing the session `key`.
    pub open spec fn spec_path_of(&self, key: Seq<char>) -> Option<(int, int)> {
        match spec_row_position(self.rows@, key) {
            Some(i) => spec_index_path(self.groups@, i),
            None => None,
        }
    }

    /// The flat row showing the session `key`.
    pub fn row_index(&self, key: &String) -> (res: Option<usize>)
        ensures
            match res {
                Some(i) => spec_row_position(self.rows@, key@) == Some(i as int),
                None => spec_row_position(self.rows@, key@) is None,
            },
    {
        let mut i: usize = 0;
        while i < self.rows.len()
            invariant
                i <= self.rows.len(),
                forall|j: int| 0 <= j < i ==> #[trigger] self.rows@[j].meta.key@ != key@,
            decreases self.rows.len() - i,
        {
            if self.rows[i].meta.key == *key {
                proof {
                    lemma_first_row_unique(self.rows@, key@, i as int);
                }
                return Some(i);
            }
            i += 1;
        }
        None
    }

    /// The flat row at (`section`, `row`).
    pub fn flat_index(&self, section: usize, row: usize) -> (res: Option<usize>)
        ensures
            res matches Some(f) ==> spec_flat_index(self.groups@, section as int, row as int)
                == Some(f as int),
            res is None ==> spec_flat_index(self.groups@, section as int, row as int) is None,
    {
        flat_index(self.groups.as_slice(), section, row)
    }

    /// The (section, row) position of flat row `flat`.
    pub fn index_path(&self, flat: usize) -> (res: Option<(usize, usize)>)
        ensures
            res matches Some((s, r)) ==> spec_index_path(self.groups@, flat as int) == Some(
                (s as int, r as int),
            ),
            res is None ==> spec_index_path(self.groups@, flat as int) is None,
    {
        index_path(self.groups.as_slice(), flat)
    }

    /// The session key of the row at (`section`, `row`).
    pub fn row_key(&self, section: usize, row: usize) -> (res: Option<String>)
        ensures
            match res {
                Some(k) => self.spec_row_key(section as int, row as int) == Some(k@),
                None => self.spec_row_key(section as int, row as int) is None,
            },
    {
        match self.flat_index(section, row) {
            Some(f) => if f < self.rows.len() {
                Some(self.rows[f].meta.key.clone())
            } else {
                None
            },
            None => None,
        }
    }

    /// Whether the session `key` has nested sessions.
    pub fn row_has_children(&self, key: &String) -> (res: bool)
        ensures
            res == (count_of(self.child_counts@, key@) > 0),
    {
        count_for(&self.child_counts, key) > 0
    }

    /// Number of sections.
    pub fn sections_count(&self) -> (res: usize)
        ensures
            res == self.groups@.len(),
    {
        self.groups.len()
    }

    /// Number of rows of section `section` (0 for a missing section).
    pub fn items_count(&self, section: usize) -> (res: usize)
        requires
            forall|k: int| 0 <= k < self.groups@.len() ==> #[trigger] self.groups@[k].start <= self.groups@[k].end,
        ensures
            res == (if section < self.groups@.len() {
                self.groups@[section as int].end - self.groups@[section as int].start
            } else {
                0
            }),
    {
        if section < self.groups.len() {
            self.groups[section].end - self.groups[section].start
        } else {
            0
        }
    }

    /// The heading of section `section`; the unlabeled section of a flat
    /// list has none.
    pub fn section_label(&self, section: usize) -> (res: Option<GroupLabel>)
        ensures
            res == (if section < self.groups@.len() && self.groups@[section as int].label
                != GroupLabel::Flat {
                Some(self.groups@[section as int].label)
            } else {
                None
            }),
    {
        if section < self.groups.len() && self.groups[section].label != GroupLabel::Flat {
            Some(self.groups[section].label)
        } else {
            None
        }
    }

    /// Whether another page can be requested: paging is on, idle, has not
    /// failed, and not all root sessions are loaded.
    pub fn has_more(&self) -> (res: bool)
        ensures
            res == (self.pagination matches Some(p) && !p.loading && !p.failed && p.next_offset
                < p.total),
    {
        match &self.pagination {
            Some(p) => !p.loading && !p.failed && p.next_offset < p.total,
            None => false,
        }
    }

    /// Starts loading the next page: returns the request and marks paging
    /// busy, or returns `None` and changes nothing when no page is due.
    pub fn begin_load_more(&mut self) -> (res: Option<PageRequest>)
        ensures
            match old(self).pagination {
                Some(p) => if !p.loading && !p.failed && p.next_offset < p.total {
                    &&& res == Some(
                        PageRequest {
                            generation: p.generation,
                            offset: p.next_offset,
                            limit: crate::query::SESSION_PAGE_SIZE,
                        },
                    )
                    &&& final(self).pagination == Some(SessionPagination { loading: true, ..p })
                } else {
                    res is None && final(self).pagination == old(self).pagination
                },
                None => res is None && final(self).pagination is None,
            },
            final(self).sessions == old(self).sessions,
            final(self).rows == old(self).rows,
            final(self).groups == old(self).groups,
            final(self).children == old(self).children,
            final(self).child_counts == old(self).child_counts,
            final(self).expanded == old(self).expanded,
            final(self).sort == old(self).sort,
            final(self).ascending == old(self).ascending,
            final(self).grouped_on == old(self).grouped_on,
            final(self).grouped_lang == old(self).grouped_lang,
            old(self).wf() ==> final(self).wf(),
    {
        match &mut self.pagination {
            Some(p) => {
                if p.loading || p.failed || p.next_offset >= p.total {
                    return None;
                }
                p.loading = true;
                Some(
                    PageRequest {
                        generation: p.generation,
                        offset: p.next_offset,
                        limit: crate::query::SESSION_PAGE_SIZE,
                    },
                )
            },
            None => None,
        }
    }

    /// Applies the answer to a page request made for `generation` at
    /// `query_offset`: `Some((sessions, total))` on success, `None` on
    /// failure. Answers for another list are ignored.
    pub fn finish_load_more(
        &mut self,
        generation: u64,
        query_offset: i64,
        result: Option<(Vec<SessionMeta>, i64)>,
        child_counts: Vec<ChildCount>,
        today: CalendarDate,
    )
        requires
            old(self).wf(),
            today.wf(),
            week_start_representable(today),
        ensures
            final(self).wf(),
            match old(self).pagination {
                Some(p) => if p.generation == generation {
                    match result {
                        Some((sessions, total)) => {
                            &&& final(self).pagination == Some(
                                SessionPagination {
                                    loading: false,
                                    total: max_i64(total, 0),
                                    next_offset: spec_next_offset(
                                        p.next_offset,
                                        query_offset,
                                        sessions@.len() as int,
                                        total,
                                    ),
                                    ..p
                                },
                            )
                            &&& final(self).sessions@ == spec_dedup_append(
                                old(self).sessions@,
                                sessions@,
                            )
                        },
                        None => {
                            &&& final(self).pagination == Some(
                                SessionPagination { loading: false, failed: true, ..p },
                            )
                            &&& final(self).sessions == old(self).sessions
                            &&& final(self).rows == old(self).rows
                        },
                    }
                } else {
                    *final(self) == *old(self)
                },
                None => *final(self) == *old(self),
            },
    {
        let current_generation = match &self.pagination {
            Some(p) => p.generation,
            None => {
                return ;
            },
        };
        if current_generation != generation {
            return ;
        }
        match result {
            Some((sessions, total)) => {
                let received = len_as_i64(sessions.len());
                match &mut self.pagination {
                    Some(p) => {
                        p.loading = false;
                        p.total = if total >= 0 {
                            total
                        } else {
                            0
                        };
                        let next = if received == 0 {
                            p.total
                        } else {
                            let s = saturating_add_i64(query_offset, received);
                            if s < p.total {
                                s
                            } else {
                                p.total
                            }
                        };
                        let grown = if p.next_offset >= next {
                            p.next_offset
                        } else {
                            next
                        };
                        p.next_offset = if grown <= p.total {
                            grown
                        } else {
                            p.total
                        };
                    },
                    None => {},
                }
                self.append_sessions(sessions, child_counts, today);
            },
            None => {
                match &mut self.pagination {
                    Some(p) => {
                        p.loading = false;
                        p.failed = true;
                    },
                    None => {},
                }
            },
        }
    }

    /// Applies the pages a search loaded to reach a session: the total they
    /// saw, the offset after them and the sessions. Returns whether they
    /// were applied (the list is still the one searched).
    pub fn apply_seek(
        &mut self,
        generation: u64,
        sessions: Vec<SessionMeta>,
        total: i64,
        next_offset: i64,
        child_counts: Vec<ChildCount>,
        today: CalendarDate,
    ) -> (applied: bool)
        requires
            old(self).wf(),
            today.wf(),
            week_start_representable(today),
        ensures
            final(self).wf(),
            applied == (old(self).pagination matches Some(p) && p.generation == generation),
            !applied ==> *final(self) == *old(self),
            applied ==> (old(self).pagination matches Some(p) && final(self).pagination == Some(
                SessionPagination {
                    total,
                    next_offset: min_i64(max_i64(p.next_offset, next_offset), total),
                    failed: false,
                    ..p
                },
            )) && final(self).sessions@ == spec_dedup_append(old(self).sessions@, sessions@),
    {
        match &mut self.pagination {
            Some(p) => {
                if p.generation != generation {
                    return false;
                }
                p.total = total;
                let grown = if p.next_offset >= next_offset {
                    p.next_offset
                } else {
                    next_offset
                };
                p.next_offset = if grown <= total {
                    grown
                } else {
                    total
                };
                p.failed = false;
            },
            None => {
                return false;
            },
        }
        self.append_sessions(sessions, child_counts, today);
        true
    }
}

} // verus!

verus! {

/// No two sessions of `s` share a key.
pub open spec fn keys_distinct(s: Seq<SessionMeta>) -> bool {
    forall|i: int, j: int| 0 <= i < j < s.len() ==> #[trigger] s[i].key@ != #[trigger] s[j].key@
}

proof fn lemma_has_key_push(s: Seq<SessionMeta>, x: SessionMeta, k: Seq<char>)
    ensures
        has_key(s.push(x), k) == (has_key(s, k) || x.key@ == k),
{
    if has_key(s, k) {
        let i = choose|i: int| 0 <= i < s.len() && #[trigger] s[i].key@ == k;
        assert(s.push(x)[i] == s[i]);
    }
    if x.key@ == k {
        assert(s.push(x)[s.len() as int] == x);
    }
    if has_key(s.push(x), k) {
        let i = choose|i: int| 0 <= i < s.push(x).len() && #[trigger] s.push(x)[i].key@ == k;
        if i < s.len() {
            assert(s[i] == s.push(x)[i]);
        }
    }
}

/// Appending a page never lists a key twice, keeps the listed sessions
/// first and in order, and loses no key of either side.
pub proof fn law_append_keeps_keys_distinct(existing: Seq<SessionMeta>, page: Seq<SessionMeta>)
    requires
        keys_distinct(existing),
    ensures
        keys_distinct(spec_dedup_append(existing, page)),
        spec_dedup_append(existing, page).len() >= existing.len(),
        spec_dedup_append(existing, page).take(existing.len() as int) == existing,
        forall|k: Seq<char>|
            #[trigger] has_key(spec_dedup_append(existing, page), k) == (has_key(existing, k)
                || has_key(page, k)),
    decreases page.len(),
{
    if page.len() == 0 {
        assert(existing.take(existing.len() as int) =~= existing);
    } else {
        let init = page.drop_last();
        law_append_keeps_keys_distinct(existing, init);
        let prev = spec_dedup_append(existing, init);
        let x = page.last();
        assert(page =~= init.push(x));
        assert forall|k: Seq<char>| #[trigger] has_key(page, k) == (has_key(init, k) || x.key@ == k) by {
            lemma_has_key_push(init, x, k);
        }
        if !has_key(prev, x.key@) {
            let next = prev.push(x);
            assert forall|i: int, j: int| 0 <= i < j < next.len() implies #[trigger] next[i].key@
                != #[trigger] next[j].key@ by {
                if j == prev.len() {
                    assert(next[i] == prev[i]);
                    assert(!(0 <= i < prev.len() && prev[i].key@ == x.key@));
                } else {
                    assert(next[i] == prev[i]);
                    assert(next[j] == prev[j]);
                }
            }
            assert forall|k: Seq<char>| #[trigger] has_key(next, k) == (has_key(existing, k)
                || has_key(page, k)) by {
                lemma_has_key_push(prev, x, k);
            }
            assert(next.take(existing.len() as int) =~= prev.take(existing.len() as int));
        } else {
            assert forall|k: Seq<char>| #[trigger] has_key(prev, k) == (has_key(existing, k)
                || has_key(page, k)) by {
                if k == x.key@ {
                    assert(has_key(prev, k));
                }
            }
        }
    }
}

} // verus!

verus! {

proof fn lemma_without_absent_key(keys: Seq<String>, k: Seq<char>)
    requires
        !key_listed(keys, k),
    ensures
        without_key(keys, k) == keys,
    decreases keys.len(),
{
    if keys.len() > 0 {
        let init = keys.drop_last();
        assert forall|i: int| 0 <= i < init.len() implies #[trigger] init[i]@ != k by {
            assert(init[i] == keys[i]);
        }
        lemma_without_absent_key(init, k);
        assert(keys[keys.len() - 1]@ != k);
        assert(init.push(keys.last()) =~= keys);
    }
}

proof fn lemma_children_of_push(lists: Seq<ChildList>, x: ChildList, k: Seq<char>)
    ensures
        children_of(lists.push(x), k) == (match children_of(lists, k) {
            Some(c) => Some(c),
            None => if x.parent@ == k {
                Some(x.sessions@)
            } else {
                None
            },
        }),
    decreases lists.len(),
{
    let p = lists.push(x);
    if lists.len() > 0 {
        assert(p[0] == lists[0]);
        assert(p.drop_first() =~= lists.drop_first().push(x));
        lemma_children_of_push(lists.drop_first(), x, k);
        if lists[0].parent@ == k {
            assert(children_of(p, k) == Some(lists[0].sessions@));
            assert(children_of(lists, k) == Some(lists[0].sessions@));
        } else {
            assert(children_of(p, k) == children_of(p.drop_first(), k));
            assert(children_of(lists, k) == children_of(lists.drop_first(), k));
        }
    } else {
        assert(p[0] == x);
        assert(p.drop_first() =~= Seq::<ChildList>::empty());
        assert(children_of(lists, k) is None);
        if x.parent@ == k {
            assert(children_of(p, k) == Some(x.sessions@));
        } else {
            assert(children_of(p, k) == children_of(p.drop_first(), k));
        }
    }
}

proof fn lemma_without_children_other(lists: Seq<ChildList>, key: Seq<char>, k: Seq<char>)
    requires
        k != key,
    ensures
        children_of(without_children(lists, key), k) == children_of(lists, k),
    decreases lists.len(),
{
    if lists.len() > 0 {
        let init = lists.drop_last();
        let x = lists.last();
        lemma_without_children_other(init, key, k);
        assert(init.push(x) =~= lists);
        lemma_children_of_push(init, x, k);
        if x.parent@ != key {
            lemma_children_of_push(without_children(init, key), x, k);
        }
    }
}

proof fn lemma_without_children_twice(lists: Seq<ChildList>, key: Seq<char>)
    ensures
        without_children(without_children(lists, key), key) == without_children(lists, key),
    decreases lists.len(),
{
    if lists.len() > 0 {
        let init = lists.drop_last();
        lemma_without_children_twice(init, key);
        let w = without_children(init, key);
        if lists.last().parent@ != key {
            let p = w.push(lists.last());
            assert(p.drop_last() =~= w);
        }
    }
}

proof fn lemma_rows_ignore_collapsed(
    roots: Seq<SessionMeta>,
    tree: bool,
    counts: Seq<ChildCount>,
    expanded: Seq<String>,
    lists: Seq<ChildList>,
    sort: SortKey,
    key: Seq<char>,
)
    requires
        !key_listed(expanded, key),
    ensures
        spec_rows(roots, tree, counts, expanded, without_children(lists, key), sort) == spec_rows(
            roots,
            tree,
            counts,
            expanded,
            lists,
            sort,
        ),
    decreases roots.len(),
{
    if roots.len() > 0 {
        lemma_rows_ignore_collapsed(roots.drop_last(), tree, counts, expanded, lists, sort, key);
        let r = root_row(roots.last(), tree, counts, expanded, sort);
        if r.expanded {
            assert(r.meta.key@ != key);
            lemma_without_children_other(lists, key, r.meta.key@);
        }
        assert(shown_children(r, without_children(lists, key)) == shown_children(r, lists));
    }
}

/// Collapsing a row right after expanding it gives back the expanded set
/// and the visible rows that were there before the expansion.
pub proof fn law_collapse_undoes_expand(
    roots: Seq<SessionMeta>,
    tree: bool,
    counts: Seq<ChildCount>,
    expanded: Seq<String>,
    lists: Seq<ChildList>,
    sort: SortKey,
    key: String,
    fetched: Vec<SessionMeta>,
)
    requires
        !key_listed(expanded, key@),
    ensures
        ({
            let expanded1 = expanded.push(key);
            let lists1 = without_children(lists, key@).push(ChildList { parent: key, sessions: fetched });
            let expanded2 = without_key(expanded1, key@);
            let lists2 = without_children(lists1, key@);
            &&& expanded2 == expanded
            &&& spec_rows(roots, tree, counts, expanded2, lists2, sort) == spec_rows(
                roots,
                tree,
                counts,
                expanded,
                lists,
                sort,
            )
        }),
{
    let expanded1 = expanded.push(key);
    let lists1 = without_children(lists, key@).push(ChildList { parent: key, sessions: fetched });
    assert(expanded1.drop_last() =~= expanded);
    lemma_without_absent_key(expanded, key@);
    assert(lists1.drop_last() =~= without_children(lists, key@));
    lemma_without_children_twice(lists, key@);
    lemma_rows_ignore_collapsed(roots, tree, counts, expanded, lists, sort, key@);
}

} // verus!

verus! {

/// What a click on a session row does.
#[derive(Clone, Copy, Debug, PartialEq, Eq, Structural)]
pub enum RowClick {
    /// The session is not shown.
    Ignore,
    /// The row was already selected and has nested sessions: expand or
    /// collapse it.
    Toggle,
    /// Select the row at (section, row) and open its session.
    Open(usize, usize),
}

impl SessionsDelegate {
    /// The (section, row) position of the row showing the session `key`.
    pub fn path_of(&self, key: &String) -> (res: Option<(usize, usize)>)
        ensures
            match res {
                Some((s, r)) => self.spec_path_of(key@) == Some((s as int, r as int)),
                None => self.spec_path_of(key@) is None,
            },
    {
        match self.row_index(key) {
            Some(flat) => self.index_path(flat),
            None => None,
        }
    }

    /// The selection after a row was expanded or collapsed: the session
    /// selected before, where it is now, or else the toggled row, so that
    /// rows inserted or removed above do not move the selection to
    /// another session.
    pub fn reselect_after_toggle(&self, selected: Option<String>, key: &String) -> (res: Option<
        (usize, usize),
    >)
        ensures
            ({
                let by_selected = match selected {
                    Some(k) => self.spec_path_of(k@),
                    None => None,
                };
                let want = match by_selected {
                    Some(p) => Some(p),
                    None => self.spec_path_of(key@),
                };
                match res {
                    Some((s, r)) => want == Some((s as int, r as int)),
                    None => want is None,
                }
            }),
    {
        let by_selected = match &selected {
            Some(k) => self.path_of(k),
            None => None,
        };
        match by_selected {
            Some(p) => Some(p),
            None => self.path_of(key),
        }
    }

    /// What a click on the row of `key` does, with `selected` the selected
    /// position: a second click on a selected row with nested sessions
    /// toggles it, any other click opens the session.
    pub fn row_click(&self, key: &String, selected: Option<(usize, usize)>) -> (res: RowClick)
        ensures
            ({
                let already = match selected {
                    Some((s, r)) => self.spec_row_key(s as int, r as int) == Some(key@),
                    None => false,
                };
                match self.spec_path_of(key@) {
                    None => res == RowClick::Ignore,
                    Some((s, r)) => if already && count_of(self.child_counts@, key@) > 0 {
                        res == RowClick::Toggle
                    } else {
                        res == RowClick::Open(s as usize, r as usize)
                    },
                }
            }),
    {
        let path = match self.path_of(key) {
            Some(p) => p,
            None => {
                return RowClick::Ignore;
            },
        };
        let already = match selected {
            Some((s, r)) => match self.row_key(s, r) {
                Some(k) => k == *key,
                None => false,
            },
            None => false,
        };
        if already && self.row_has_children(key) {
            RowClick::Toggle
        } else {
            RowClick::Open(path.0, path.1)
        }
    }

    /// Selects the session `key`: when it is a nested session that is not
    /// shown and its root `parent` is listed, the root is expanded first
    /// (with `fetched`, its nested sessions read from the index). Returns
    /// the position to select.
    pub fn select_key(
        &mut self,
        key: &String,
        parent: Option<String>,
        fetched: Option<Vec<SessionMeta>>,
        today: CalendarDate,
    ) -> (res: Option<(usize, usize)>)
        requires
            old(self).wf(),
            today.wf(),
            week_start_representable(today),
        ensures
            final(self).wf(),
            final(self).sessions == old(self).sessions,
            final(self).pagination == old(self).pagination,
            match res {
                Some((s, r)) => final(self).spec_path_of(key@) == Some((s as int, r as int)),
                None => final(self).spec_path_of(key@) is None,
            },
            spec_row_position(old(self).rows@, key@) is Some ==> *final(self) == *old(self),
            !old(self).spec_tree_mode() ==> *final(self) == *old(self),
            parent is None ==> *final(self) == *old(self),
    {
        if self.row_index(key).is_none() && self.tree_mode() {
            match &parent {
                Some(p) => {
                    if self.row_index(p).is_some() {
                        self.ensure_expanded(p, fetched, today);
                    }
                },
                None => {},
            }
        }
        self.path_of(key)
    }
}

} // verus!

verus! {

/// Display cells of a session title in the list.
pub const SESSION_TITLE_MAX_WIDTH: usize = 42;

/// One row of the session list as shown.
#[derive(Clone, Debug)]
pub struct SessionRowView {
    pub key: String,
    pub title: String,
    /// Display cells the title may use: what the row's icons leave.
    pub title_cells: usize,
    /// A nested session, drawn indented with a guide line.
    pub nested: bool,
    /// The expand arrow and the nested-session count are shown.
    pub show_chevron: bool,
    pub expanded: bool,
    pub child_count: i64,
    pub pinned: bool,
    pub favorite: bool,
    pub remote: bool,
    /// The time shown: creation or last update, as the list is sorted.
    pub timestamp: i64,
}

/// The cells a title may use beside `icons` icons of three cells each.
pub open spec fn title_cells(icons: int) -> int {
    if 3 * icons >= SESSION_TITLE_MAX_WIDTH {
        0
    } else {
        SESSION_TITLE_MAX_WIDTH - 3 * icons
    }
}

impl SessionsDelegate {
    /// The row at (`section`, `row`).
    pub fn row_view(&self, section: usize, row: usize) -> (res: Option<SessionRowView>)
        ensures
            match spec_flat_index(self.groups@, section as int, row as int) {
                Some(f) => if 0 <= f < self.rows@.len() {
                    res matches Some(v) && ({
                        let r = self.rows@[f];
                        let s = r.meta;
                        let chevron = self.spec_tree_mode() && r.child_count > 0;
                        let icons = (if s.pinned { 1int } else { 0 }) + (if s.favorite { 1int } else { 0 })
                            + (if chevron { 1int } else { 0 });
                        &&& v.key@ == s.key@
                        &&& v.title@ == s.title@
                        &&& v.title_cells == title_cells(icons)
                        &&& v.nested == (r.depth > 0)
                        &&& v.show_chevron == chevron
                        &&& v.expanded == r.expanded
                        &&& v.child_count == r.child_count
                        &&& v.pinned == s.pinned
                        &&& v.favorite == s.favorite
                        &&& v.remote == (s.host@.len() > 0)
                        &&& v.timestamp == spec_group_timestamp(s, self.sort)
                    })
                } else {
                    res is None
                },
                None => res is None,
            },
    {
        let f = match self.flat_index(section, row) {
            Some(f) => f,
            None => {
                return None;
            },
        };
        if f >= self.rows.len() {
            return None;
        }
        let r = &self.rows[f];
        let s = &r.meta;
        let chevron = self.tree_mode() && r.child_count > 0;
        let icons: usize = (if s.pinned { 1 } else { 0 }) + (if s.favorite { 1 } else { 0 }) + (if chevron {
            1
        } else {
            0
        });
        let cells = if 3 * icons >= SESSION_TITLE_MAX_WIDTH {
            0
        } else {
            SESSION_TITLE_MAX_WIDTH - 3 * icons
        };
        Some(
            SessionRowView {
                key: s.key.clone(),
                title: s.title.clone(),
                title_cells: cells,
                nested: r.depth > 0,
                show_chevron: chevron,
                expanded: r.expanded,
                child_count: r.child_count,
                pinned: s.pinned,
                favorite: s.favorite,
                remote: s.host.as_str().unicode_len() > 0,
                timestamp: group_timestamp(s, self.sort),
            },
        )
    }
}

} // verus!

verus! {

proof fn lemma_nested_rows_follow(
    roots: Seq<SessionMeta>,
    tree: bool,
    counts: Seq<ChildCount>,
    expanded: Seq<String>,
    lists: Seq<ChildList>,
    sort: SortKey,
)
    ensures
        ({
            let rows = spec_rows(roots, tree, counts, expanded, lists, sort);
            forall|i: int|
                0 <= i < rows.len() && (#[trigger] rows[i]).depth != 0 ==> i > 0
                    && rows[i].group_timestamp == rows[i - 1].group_timestamp
                    && rows[i].group_pinned == rows[i - 1].group_pinned
        }),
    decreases roots.len(),
{
    if roots.len() > 0 {
        lemma_nested_rows_follow(roots.drop_last(), tree, counts, expanded, lists, sort);
        let prev = spec_rows(roots.drop_last(), tree, counts, expanded, lists, sort);
        let r = root_row(roots.last(), tree, counts, expanded, sort);
        let kids = shown_children(r, lists).map_values(|c: SessionMeta| child_row(c, r));
        let rows = spec_rows(roots, tree, counts, expanded, lists, sort);
        assert(rows == prev + (seq![r] + kids));
        assert forall|i: int| 0 <= i < rows.len() && (#[trigger] rows[i]).depth != 0 implies i > 0
            && rows[i].group_timestamp == rows[i - 1].group_timestamp && rows[i].group_pinned
            == rows[i - 1].group_pinned by {
            if i < prev.len() {
                assert(rows[i] == prev[i]);
                if prev[i].depth != 0 {
                    assert(rows[i - 1] == prev[i - 1]);
                }
            } else if i == prev.len() {
                assert(rows[i] == r);
            } else {
                let k = i - prev.len() - 1;
                assert(rows[i] == kids[k]);
                if k == 0 {
                    assert(rows[i - 1] == r);
                } else {
                    assert(rows[i - 1] == kids[k - 1]);
                }
            }
        }
    }
}

proof fn lemma_section_start_not_nested(
    groups: Seq<SessionGroup>,
    rows: Seq<SessionListRow>,
    labels: Seq<GroupLabel>,
    time_desc: bool,
    k: int,
)
    requires
        labels.len() == rows.len(),
        forall|i: int|
            pinned_prefix(rows) < i < labels.len() && rows[i].group_timestamp == rows[i
                - 1].group_timestamp ==> #[trigger] labels[i] == labels[i - 1],
        grouped_as(groups, rows, labels, time_desc),
        forall|i: int|
            0 <= i < rows.len() && (#[trigger] rows[i]).depth != 0 ==> i > 0
                && rows[i].group_timestamp == rows[i - 1].group_timestamp
                && rows[i].group_pinned == rows[i - 1].group_pinned,
        0 <= k < groups.len(),
        groups[k].start < rows.len(),
    ensures
        rows[groups[k].start as int].depth == 0,
{
    lemma_pinned_prefix_bounds(rows);
    let p = pinned_prefix(rows);
    let n = rows.len() as int;
    let s = groups[k].start as int;
    if rows[s].depth != 0 {
        if n == 0 || !time_desc {
            assert(groups[0].start == 0);
        } else if p > 0 {
            let g = groups.drop_first();
            if k == 0 {
                assert(s == 0);
            } else if k == 1 {
                assert(g[0] == groups[1]);
                assert(rows[p - 1].group_pinned);
            } else {
                assert(g[k - 1] == groups[k]);
                lemma_run_boundary(g, labels, p, n, k - 1);
                assert(labels[s] == labels[s - 1]);
            }
        } else if k == 0 {
            assert(s == 0);
        } else {
            lemma_run_boundary(groups, labels, 0, n, k);
            assert(labels[s] == labels[s - 1]);
        }
    }
}

/// A nested session is never split from its root into another section:
/// no section of the list starts at a nested row, so each nested row sits
/// in the section of the root row above it.
pub proof fn law_nested_rows_stay_with_root(d: SessionsDelegate, today: CalendarDate)
    requires
        d.wf(),
        sectioned_on(d.groups@, d.rows@, d.sort, d.ascending, today),
    ensures
        forall|k: int|
            0 <= k < d.groups@.len() && (#[trigger] d.groups@[k]).start < d.rows@.len()
                ==> d.rows@[d.groups@[k].start as int].depth == 0,
{
    let rows = d.rows@;
    let groups = d.groups@;
    let time_desc = time_descending(d.sort, d.ascending);
    let labels = choose|labels: Seq<GroupLabel>|
        labels_fit(labels, rows, today, time_desc) && grouped_as(groups, rows, labels, time_desc);
    lemma_nested_rows_follow(
        d.sessions@,
        d.spec_tree_mode(),
        d.child_counts@,
        d.expanded@,
        d.children@,
        d.sort,
    );
    assert forall|k: int|
        0 <= k < groups.len() && (#[trigger] groups[k]).start < rows.len() implies rows[groups[k].start as int].depth
        == 0 by {
        lemma_section_start_not_nested(groups, rows, labels, time_desc, k);
    }
}

} // verus!

verus! {

proof fn lemma_rows_concat(
    a: Seq<SessionMeta>,
    b: Seq<SessionMeta>,
    tree: bool,
    counts: Seq<ChildCount>,
    expanded: Seq<String>,
    lists: Seq<ChildList>,
    sort: SortKey,
)
    ensures
        spec_rows(a + b, tree, counts, expanded, lists, sort) == spec_rows(
            a,
            tree,
            counts,
            expanded,
            lists,
            sort,
        ) + spec_rows(b, tree, counts, expanded, lists, sort),
    decreases b.len(),
{
    if b.len() == 0 {
        assert(a + b =~= a);
        assert(spec_rows(a, tree, counts, expanded, lists, sort) + spec_rows(b, tree, counts, expanded, lists, sort)
            =~= spec_rows(a, tree, counts, expanded, lists, sort));
    } else {
        lemma_rows_concat(a, b.drop_last(), tree, counts, expanded, lists, sort);
        assert((a + b).drop_last() =~= a + b.drop_last());
        assert((a + b).last() == b.last());
        let ra = spec_rows(a, tree, counts, expanded, lists, sort);
        let rb = spec_rows(b.drop_last(), tree, counts, expanded, lists, sort);
        let last = rows_of_root(b.last(), tree, counts, expanded, lists, sort);
        assert(ra + rb + last =~= ra + (rb + last));
    }
}

/// An expanded root shows its nested sessions right below it: in the
/// visible rows, the row of root `j` is followed directly by the rows of
/// its shown nested sessions, in the order they were loaded, after the rows
/// of the roots before it.
pub proof fn law_children_follow_their_root(
    roots: Seq<SessionMeta>,
    tree: bool,
    counts: Seq<ChildCount>,
    expanded: Seq<String>,
    lists: Seq<ChildList>,
    sort: SortKey,
    j: int,
)
    requires
        0 <= j < roots.len(),
    ensures
        ({
            let rows = spec_rows(roots, tree, counts, expanded, lists, sort);
            let start = spec_rows(roots.take(j), tree, counts, expanded, lists, sort).len() as int;
            let r = root_row(roots[j], tree, counts, expanded, sort);
            let kids = shown_children(r, lists);
            &&& start + kids.len() < rows.len()
            &&& rows[start] == r
            &&& forall|k: int| 0 <= k < kids.len() ==> #[trigger] rows[start + 1 + k] == child_row(kids[k], r)
        }),
{
    let before = roots.take(j);
    let rest = roots.skip(j);
    assert(roots =~= before + rest);
    lemma_rows_concat(before, rest, tree, counts, expanded, lists, sort);
    assert(rest =~= seq![roots[j]] + rest.drop_first());
    lemma_rows_concat(seq![roots[j]], rest.drop_first(), tree, counts, expanded, lists, sort);
    let one = seq![roots[j]];
    assert(one.drop_last() =~= Seq::<SessionMeta>::empty());
    assert(one.last() == roots[j]);
    assert(spec_rows(Seq::<SessionMeta>::empty(), tree, counts, expanded, lists, sort).len() == 0);
    assert(spec_rows(one, tree, counts, expanded, lists, sort) =~= rows_of_root(
        roots[j],
        tree,
        counts,
        expanded,
        lists,
        sort,
    ));
    let r = root_row(roots[j], tree, counts, expanded, sort);
    let kids = shown_children(r, lists);
    let rows = spec_rows(roots, tree, counts, expanded, lists, sort);
    let pre = spec_rows(before, tree, counts, expanded, lists, sort);
    let own = rows_of_root(roots[j], tree, counts, expanded, lists, sort);
    let post = spec_rows(rest.drop_first(), tree, counts, expanded, lists, sort);
    assert(rows == pre + (own + post));
    assert forall|k: int| 0 <= k < kids.len() implies #[trigger] rows[pre.len() + 1 + k] == child_row(kids[k], r) by {
        assert(own[1 + k] == child_row(kids[k], r));
    }
}

} // verus!
