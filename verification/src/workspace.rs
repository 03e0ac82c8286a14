//! The workbench around the list: which sessions the sidebar scope selects,
//! which page is open, how far a refresh reads, and how a search hit is
//! brought into view.
use vstd::prelude::*;
use crate::delegate::{count_as_i64, len_as_i64, SessionsDelegate};
use crate::model::{AgentId, SessionMeta};
use crate::query::{spec_same_session_query, same_session_query, SessionFilter, SESSION_PAGE_SIZE};
use crate::text::{replace_text, replaced, spec_trim, trim_text};
use vstd::string::StrSliceExecFns;

verus! {

broadcast use vstd::string::group_string_axioms;

/// The pages of the workbench.
#[derive(Clone, Copy, Debug, PartialEq, Eq, Structural)]
pub enum Page {
    Sessions,
    Insights,
    Memory,
}

/// What the sidebar selects: an agent, a project, or the starred sessions.
#[derive(Clone, Debug)]
pub struct Scope {
    pub page: Page,
    pub selected_agent: Option<AgentId>,
    pub selected_project: Option<String>,
    pub favorite_only: bool,
}

impl Scope {
    /// Shows `page`. Going to a full page clears the session filters (and
    /// the caller resets the memory filter). Returns whether the page
    /// changed, in which case the workbench refreshes.
    pub fn show_page(&mut self, page: Page) -> (changed: bool)
        ensures
            changed == (old(self).page != page),
            final(self).page == page,
            changed && page != Page::Sessions ==> final(self).selected_agent is None
                && final(self).selected_project is None && !final(self).favorite_only,
            !(changed && page != Page::Sessions) ==> final(self).selected_agent == old(
                self,
            ).selected_agent && final(self).selected_project == old(self).selected_project
                && final(self).favorite_only == old(self).favorite_only,
    {
        if self.page == page {
            return false;
        }
        self.page = page;
        if page != Page::Sessions {
            self.selected_agent = None;
            self.selected_project = None;
            self.favorite_only = false;
        }
        true
    }

    /// Selects a sidebar row: the session list narrowed to `agent`,
    /// `project` or the starred sessions.
    pub fn set_scope(&mut self, agent: Option<AgentId>, project: Option<String>, favorite: bool)
        ensures
            final(self).page == Page::Sessions,
            final(self).selected_agent == agent,
            final(self).selected_project == project,
            final(self).favorite_only == favorite,
    {
        self.selected_agent = agent;
        self.selected_project = project;
        self.favorite_only = favorite;
        self.page = Page::Sessions;
    }
}

/// The title over the session list.
#[derive(Clone, Debug)]
pub enum ContextTitle {
    Starred,
    /// The selected project's name, as the sidebar lists it.
    Project(String),
    /// A selected project the sidebar does not list.
    Projects,
    AllSessions,
    Agent(AgentId),
}

/// A project as the sidebar lists it.
#[derive(Clone, Debug)]
pub struct ProjectInfo {
    pub path: String,
    pub name: String,
}

/// The first project of `projects` with path `path`.
pub open spec fn project_named(projects: Seq<ProjectInfo>, path: Seq<char>, i: int) -> Option<int>
    decreases projects.len() - i,
{
    if i < 0 || i >= projects.len() {
        None
    } else if projects[i].path@ == path {
        Some(i)
    } else {
        project_named(projects, path, i + 1)
    }
}

/// The title of the list for `scope`.
pub fn context_title(scope: &Scope, projects: &Vec<ProjectInfo>) -> (res: ContextTitle)
    ensures
        scope.favorite_only ==> res is Starred,
        !scope.favorite_only ==> match scope.selected_project {
            Some(p) => match project_named(projects@, p@, 0) {
                Some(i) => res matches ContextTitle::Project(n) && n@ == projects@[i].name@,
                None => res is Projects,
            },
            None => match scope.selected_agent {
                Some(a) => res == ContextTitle::Agent(a),
                None => res is AllSessions,
            },
        },
{
    if scope.favorite_only {
        return ContextTitle::Starred;
    }
    match &scope.selected_project {
        Some(p) => {
            let mut i: usize = 0;
            while i < projects.len()
                invariant
                    i <= projects.len(),
                    !scope.favorite_only,
                    scope.selected_project == Some(*p),
                    project_named(projects@, p@, 0) == project_named(projects@, p@, i as int),
                decreases projects.len() - i,
            {
                if projects[i].path == *p {
                    return ContextTitle::Project(projects[i].name.clone());
                }
                i += 1;
            }
            ContextTitle::Projects
        },
        None => match scope.selected_agent {
            Some(a) => ContextTitle::Agent(a),
            None => ContextTitle::AllSessions,
        },
    }
}

/// Whether the insights page reads its data again now: only while it is
/// open, and not during a scan when it already has data (the scan's end
/// reloads it). Returns `Some(show_loading)`, showing the loading state
/// only when there is no data yet.
pub fn insights_reload(page: Page, scanning: bool, has_data: bool) -> (res: Option<bool>)
    ensures
        res == (if page != Page::Insights || (scanning && has_data) {
            None
        } else {
            Some(!has_data)
        }),
{
    if page != Page::Insights {
        return None;
    }
    if scanning && has_data {
        return None;
    }
    Some(!has_data)
}

/// How many root sessions a refresh of the list reads: as many as the
/// list shows for the same query, when that is more than a page, so that
/// the list keeps its length.
pub open spec fn spec_refresh_limit(current: Option<(SessionFilter, int)>, filter: SessionFilter) -> i64 {
    match current {
        Some((f, loaded)) => if spec_same_session_query(f, filter) && loaded > SESSION_PAGE_SIZE {
            count_as_i64(loaded)
        } else {
            filter.limit
        },
        None => filter.limit,
    }
}

impl SessionsDelegate {
    /// The limit of the query that refreshes this list with `filter`.
    pub fn refresh_limit(&self, filter: &SessionFilter) -> (res: i64)
        ensures
            res == spec_refresh_limit(
                match self.pagination {
                    Some(p) => Some((p.filter, self.sessions@.len() as int)),
                    None => None,
                },
                *filter,
            ),
    {
        match &self.pagination {
            Some(p) => {
                if same_session_query(&p.filter, filter) && self.sessions.len() as u64 > 100 {
                    len_as_i64(self.sessions.len())
                } else {
                    filter.limit
                }
            },
            None => filter.limit,
        }
    }
}

/// The root session a search hit is sought under: in a list of root
/// sessions, the hit's visible parent when it has one.
pub fn seek_root(roots_only: bool, parent: Option<String>, key: &String) -> (res: String)
    ensures
        res@ == (if roots_only {
            match parent {
                Some(p) => p@,
                None => key@,
            }
        } else {
            key@
        }),
{
    if roots_only {
        match parent {
            Some(p) => p,
            None => key.clone(),
        }
    } else {
        key.clone()
    }
}

/// A hit of the search palette.
#[derive(Clone, Debug)]
pub struct SearchHit {
    pub session: SessionMeta,
    /// The message the hit is in.
    pub seq: i64,
    pub snippet: String,
    pub timestamp: Option<i64>,
}

/// The hits of the search palette.
pub struct SearchDelegate {
    pub hits: Vec<SearchHit>,
    /// The index fell back to a slower search for a short query.
    pub degraded: bool,
    pub last_query: String,
}

/// What a change of the palette's query does.
#[derive(Clone, Debug)]
pub enum QueryChange {
    /// The trimmed query is the one already shown.
    Unchanged,
    /// The query was cleared: the hits go at once.
    Cleared,
    /// Search the index for this query.
    Search(String),
}

impl SearchDelegate {
    pub fn new() -> (res: Self)
        ensures
            res.hits@.len() == 0,
            !res.degraded,
            res.last_query@.len() == 0,
    {
        SearchDelegate { hits: Vec::new(), degraded: false, last_query: String::new() }
    }

    pub fn items_count(&self) -> (res: usize)
        ensures
            res == self.hits@.len(),
    {
        self.hits.len()
    }

    /// Takes in the text typed into the palette; it is searched without
    /// surrounding whitespace.
    pub fn query_changed(&mut self, raw: &str) -> (res: QueryChange)
        ensures
            ({
                let q = spec_trim(raw@);
                if q == old(self).last_query@ {
                    res is Unchanged && final(self).hits == old(self).hits && final(self).degraded
                        == old(self).degraded && final(self).last_query == old(self).last_query
                } else if q.len() == 0 {
                    res is Cleared && final(self).hits@.len() == 0 && !final(self).degraded
                        && final(self).last_query@.len() == 0
                } else {
                    (res matches QueryChange::Search(s) && s@ == q) && final(self).last_query@ == q
                        && final(self).hits == old(self).hits && final(self).degraded == old(
                        self,
                    ).degraded
                }
            }),
    {
        let q = trim_text(raw);
        if crate::text::text_eq(q, self.last_query.as_str()) {
            return QueryChange::Unchanged;
        }
        if q.unicode_len() == 0 {
            self.hits = Vec::new();
            self.degraded = false;
            self.last_query = String::new();
            return QueryChange::Cleared;
        }
        self.last_query = q.to_owned();
        QueryChange::Search(q.to_owned())
    }

    /// Takes in the hits the index found; returns the hit to select (the
    /// first, when there is one).
    pub fn finish_search(&mut self, hits: Vec<SearchHit>, degraded: bool) -> (selected: Option<usize>)
        ensures
            final(self).hits == hits,
            final(self).degraded == degraded,
            final(self).last_query == old(self).last_query,
            selected == (if hits@.len() > 0 {
                Some(0usize)
            } else {
                None
            }),
    {
        let selected = if hits.len() > 0 {
            Some(0)
        } else {
            None
        };
        self.hits = hits;
        self.degraded = degraded;
        selected
    }

    /// The guide is shown in place of hits while no query is typed.
    pub fn shows_guide(&self) -> (res: bool)
        ensures
            res == (spec_trim(self.last_query@).len() == 0),
    {
        trim_text(self.last_query.as_str()).unicode_len() == 0
    }

    /// The session and message of the hit at `row`, or of the first hit
    /// when none is selected.
    pub fn hit_target(&self, selected: Option<usize>) -> (res: Option<(String, i64)>)
        ensures
            ({
                let row = match selected {
                    Some(r) => r as int,
                    None => 0,
                };
                if 0 <= row < self.hits@.len() {
                    res matches Some((k, s)) && k@ == self.hits@[row].session.key@ && s
                        == self.hits@[row].seq
                } else {
                    res is None
                }
            }),
    {
        let row = match selected {
            Some(r) => r,
            None => 0,
        };
        if row < self.hits.len() {
            Some((self.hits[row].session.key.clone(), self.hits[row].seq))
        } else {
            None
        }
    }
}

} // verus!

verus! {

/// The status line of the sidebar.
#[derive(Clone, Debug)]
pub enum SidebarNote {
    /// A scan runs and does not know its size yet.
    Refreshing,
    RefreshingProgress { done: u64, total: u64 },
    RefreshingMemory,
    SyncingHost(String),
    SyncingHosts(usize),
    RefreshFailed(String),
}

/// The progress bar under the status line.
#[derive(Clone, Copy, Debug, PartialEq, Eq, Structural)]
pub enum SidebarProgress {
    /// Done out of total.
    Fraction { done: u64, total: u64 },
    Indeterminate,
}

/// What the sidebar shows of the work going on.
#[derive(Clone, Debug)]
pub struct SidebarStatus {
    pub note: Option<SidebarNote>,
    /// A spinner leads the note while work runs.
    pub busy: bool,
    pub progress: Option<SidebarProgress>,
}

/// The sidebar's status from the scan (running, files done and known in
/// all, its last error), the memory sync and the remote hosts syncing.
pub fn sidebar_status(
    scanning: bool,
    done: u64,
    total: u64,
    scan_error: &Option<String>,
    memory_syncing: bool,
    syncing_hosts: &Vec<String>,
) -> (res: SidebarStatus)
    ensures
        res.busy == (scanning || memory_syncing || syncing_hosts@.len() > 0),
        scanning ==> (if total == 0 {
            res.note matches Some(SidebarNote::Refreshing)
        } else {
            res.note matches Some(SidebarNote::RefreshingProgress { done: d, total: t }) && d == done
                && t == total
        }),
        !scanning && memory_syncing ==> res.note matches Some(SidebarNote::RefreshingMemory),
        !scanning && !memory_syncing && syncing_hosts@.len() == 1 ==> (res.note matches Some(
            SidebarNote::SyncingHost(h),
        ) && h@ == syncing_hosts@[0]@),
        !scanning && !memory_syncing && syncing_hosts@.len() > 1 ==> (res.note matches Some(
            SidebarNote::SyncingHosts(n),
        ) && n == syncing_hosts@.len()),
        !scanning && !memory_syncing && syncing_hosts@.len() == 0 ==> match scan_error {
            Some(e) => res.note matches Some(SidebarNote::RefreshFailed(m)) && m@ == e@,
            None => res.note is None,
        },
        res.progress == (if !res.busy {
            None
        } else if scanning && total > 0 {
            Some(SidebarProgress::Fraction { done, total })
        } else {
            Some(SidebarProgress::Indeterminate)
        }),
{
    let busy = scanning || memory_syncing || syncing_hosts.len() > 0;
    let note = if scanning {
        if total == 0 {
            Some(SidebarNote::Refreshing)
        } else {
            Some(SidebarNote::RefreshingProgress { done, total })
        }
    } else if memory_syncing {
        Some(SidebarNote::RefreshingMemory)
    } else if syncing_hosts.len() == 1 {
        Some(SidebarNote::SyncingHost(syncing_hosts[0].clone()))
    } else if syncing_hosts.len() > 1 {
        Some(SidebarNote::SyncingHosts(syncing_hosts.len()))
    } else {
        match scan_error {
            Some(e) => Some(SidebarNote::RefreshFailed(e.clone())),
            None => None,
        }
    };
    let progress = if !busy {
        None
    } else if scanning && total > 0 {
        Some(SidebarProgress::Fraction { done, total })
    } else {
        Some(SidebarProgress::Indeterminate)
    };
    SidebarStatus { note, busy, progress }
}

/// "All sessions" is highlighted when nothing narrows the list, the
/// session page is open and no cleanup is.
pub fn all_sessions_active(scope: &Scope, cleanup_open: bool) -> (res: bool)
    ensures
        res == (scope.selected_agent is None && scope.selected_project is None
            && !scope.favorite_only && scope.page == Page::Sessions && !cleanup_open),
{
    scope.selected_agent.is_none() && scope.selected_project.is_none() && !scope.favorite_only
        && scope.page == Page::Sessions && !cleanup_open
}

/// Clicking a sidebar row selects its value, or clears the selection when
/// the row is already active.
pub fn sidebar_choice<T>(active: bool, value: T) -> (res: Option<T>)
    ensures
        res == (if active {
            None
        } else {
            Some(value)
        }),
{
    if active {
        None
    } else {
        Some(value)
    }
}

} // verus!

verus! {

/// A location form offers to save once its agent or path differs from
/// what it opened with and the path has something besides whitespace.
pub fn form_dirty(selected: AgentId, init_agent: AgentId, text: &str, init_path: &str) -> (res: bool)
    ensures
        res == ((selected != init_agent || text@ != init_path@) && spec_trim(text@).len() > 0),
{
    (selected != init_agent || !crate::text::text_eq(text, init_path)) && trim_text(text).unicode_len()
        > 0
}

} // verus!

verus! {

/// An agent with its number of sessions, as the sidebar lists it.
pub type AgentCount = (AgentId, i64);

/// Where `x` goes among `sorted` counts, from position `i` on: before the
/// first count of a larger agent, after every count of an agent not larger.
pub open spec fn agent_slot_from(sorted: Seq<AgentCount>, x: AgentCount, i: int) -> int
    decreases sorted.len() - i,
{
    if i < 0 || i >= sorted.len() {
        sorted.len() as int
    } else if x.0 < sorted[i].0 {
        i
    } else {
        agent_slot_from(sorted, x, i + 1)
    }
}

/// `counts` ordered by agent, keeping the order of equal agents (a stable
/// sort): the sidebar's order does not depend on how the index walked its
/// counts.
pub open spec fn agents_in_order(counts: Seq<AgentCount>) -> Seq<AgentCount>
    decreases counts.len(),
{
    if counts.len() == 0 {
        counts
    } else {
        let prev = agents_in_order(counts.drop_last());
        prev.insert(agent_slot_from(prev, counts.last(), 0), counts.last())
    }
}

proof fn lemma_agent_slot_facts(sorted: Seq<AgentCount>, x: AgentCount, i: int)
    requires
        0 <= i <= sorted.len(),
    ensures
        i <= agent_slot_from(sorted, x, i) <= sorted.len(),
        forall|k: int| i <= k < agent_slot_from(sorted, x, i) ==> (#[trigger] sorted[k]).0 <= x.0,
        agent_slot_from(sorted, x, i) < sorted.len() ==> x.0 < sorted[agent_slot_from(sorted, x, i)].0,
    decreases sorted.len() - i,
{
    if i < sorted.len() && !(x.0 < sorted[i].0) {
        lemma_agent_slot_facts(sorted, x, i + 1);
    }
}

fn agent_slot(sorted: &Vec<AgentCount>, x: AgentCount) -> (res: usize)
    ensures
        res as int == agent_slot_from(sorted@, x, 0),
{
    let mut i: usize = 0;
    while i < sorted.len()
        invariant
            i <= sorted.len(),
            agent_slot_from(sorted@, x, 0) == agent_slot_from(sorted@, x, i as int),
        decreases sorted.len() - i,
    {
        if x.0 < sorted[i].0 {
            return i;
        }
        i += 1;
    }
    i
}

/// The sidebar's agents in a fixed order: by agent, equal agents in the
/// order given.
pub fn order_agent_counts(counts: Vec<AgentCount>) -> (res: Vec<AgentCount>)
    ensures
        res@ == agents_in_order(counts@),
{
    let ghost all = counts@;
    let n = counts.len();
    let mut rest = counts;
    let mut sorted: Vec<AgentCount> = Vec::new();
    let mut i: usize = 0;
    while rest.len() > 0
        invariant
            i <= n,
            all.len() == n,
            rest@ == all.subrange(i as int, n as int),
            sorted@ == agents_in_order(all.take(i as int)),
        decreases rest.len(),
    {
        let x = rest.remove(0);
        proof {
            assert(x == all[i as int]);
            assert(rest@ =~= all.subrange(i + 1, n as int));
            let t = all.take(i + 1 as int);
            assert(t.drop_last() =~= all.take(i as int));
            assert(t.last() == all[i as int]);
            lemma_agent_slot_facts(sorted@, x, 0);
        }
        let pos = agent_slot(&sorted, x);
        sorted.insert(pos, x);
        i += 1;
    }
    assert(all.take(n as int) =~= all);
    sorted
}

/// The sidebar's agent order is ascending by agent and only reorders the
/// counts it is given.
pub proof fn law_agent_order_sorted(counts: Seq<AgentCount>)
    ensures
        forall|i: int, j: int|
            0 <= i < j < agents_in_order(counts).len() ==> (#[trigger] agents_in_order(counts)[i]).0
                <= (#[trigger] agents_in_order(counts)[j]).0,
        agents_in_order(counts).to_multiset() == counts.to_multiset(),
    decreases counts.len(),
{
    if counts.len() > 0 {
        law_agent_order_sorted(counts.drop_last());
        let prev = agents_in_order(counts.drop_last());
        let x = counts.last();
        lemma_agent_slot_facts(prev, x, 0);
        let p = agent_slot_from(prev, x, 0);
        let s = prev.insert(p, x);
        assert(s == agents_in_order(counts));
        assert forall|i: int, j: int| 0 <= i < j < s.len() implies (#[trigger] s[i]).0 <= (
        #[trigger] s[j]).0 by {
            if j < p {
                assert(s[i] == prev[i] && s[j] == prev[j]);
            } else if j == p {
                assert(s[i] == prev[i]);
            } else if i < p {
                assert(s[i] == prev[i] && s[j] == prev[j - 1]);
            } else if i == p {
                assert(s[j] == prev[j - 1]);
                assert(prev[p].0 <= prev[j - 1].0);
            } else {
                assert(s[i] == prev[i - 1] && s[j] == prev[j - 1]);
            }
        }
        assert(counts =~= counts.drop_last().push(x));
        vstd::seq_lib::to_multiset_insert(prev, p, x);
        counts.drop_last().to_multiset_ensures();
    }
}

} // verus!

verus! {

/// The snippet of a search hit as the palette shows it: the index's
/// highlight marks (`open_mark`, `close_mark`) become corner brackets, and
/// line breaks become spaces.
pub open spec fn spec_hit_snippet(snippet: Seq<char>, open_mark: Seq<char>, close_mark: Seq<char>) -> Seq<char> {
    replaced(
        replaced(replaced(snippet, open_mark, "「"@), close_mark, "」"@),
        "\n"@,
        " "@,
    )
}

pub fn hit_snippet(snippet: &str, open_mark: &str, close_mark: &str) -> (res: String)
    requires
        open_mark@.len() > 0,
        close_mark@.len() > 0,
    ensures
        res@ == spec_hit_snippet(snippet@, open_mark@, close_mark@),
{
    let opened = replace_text(snippet, open_mark, "「");
    let closed = replace_text(opened.as_str(), close_mark, "」");
    proof {
        reveal_strlit("\n");
    }
    replace_text(closed.as_str(), "\n", " ")
}

} // verus!

verus! {

/// What the session list shows in place of rows.
#[derive(Clone, Copy, Debug, PartialEq, Eq, Structural)]
pub enum EmptyList {
    /// The first scan is still looking for sessions.
    Building,
    /// No session was ever indexed: the user is offered to add a location.
    EmptyLibrary,
    /// Sessions exist, but none matches the scope and filters.
    NoMatches,
}

/// The empty state of a list showing `shown` rows out of a library of
/// `library_total` sessions, while a scan runs or not; `None` when rows
/// are shown.
pub fn list_empty_state(shown: usize, library_total: i64, scanning: bool) -> (res: Option<EmptyList>)
    ensures
        res == (if shown > 0 {
            None
        } else if library_total == 0 && scanning {
            Some(EmptyList::Building)
        } else if library_total == 0 {
            Some(EmptyList::EmptyLibrary)
        } else {
            Some(EmptyList::NoMatches)
        }),
{
    if shown > 0 {
        None
    } else if library_total == 0 && scanning {
        Some(EmptyList::Building)
    } else if library_total == 0 {
        Some(EmptyList::EmptyLibrary)
    } else {
        Some(EmptyList::NoMatches)
    }
}

} // verus!
