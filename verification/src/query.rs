//! The session query behind the list, and which sessions it admits.
use vstd::prelude::*;
use crate::groups::SortKey;
use crate::model::{AgentId, SessionMeta};
use crate::text::{chars_of, contains_chars, seq_contains, spec_trim, trim_text};

verus! {

/// Rows the list loads per page.
pub const SESSION_PAGE_SIZE: i64 = 100;

/// A query of the session index.
#[derive(Clone, Debug)]
pub struct SessionFilter {
    pub agents: Vec<AgentId>,
    pub project_paths: Vec<String>,
    pub updated_since: Option<i64>,
    pub ignore_pins: bool,
    pub favorite_only: bool,
    pub include_archived: bool,
    /// Only root sessions; nested sessions are listed under their root.
    pub roots_only: bool,
    pub title_query: Option<String>,
    pub sort: SortKey,
    pub ascending: bool,
    pub limit: i64,
    pub offset: i64,
}

/// `s` with its letters in lower case, as `str::to_lowercase` returns it.
pub uninterp spec fn lowercase(s: Seq<char>) -> Seq<char>;

/// Calls `str::to_lowercase`; the contract names its result.
#[verifier::external_body]
pub(crate) fn to_lowercase(s: &str) -> (res: String)
    ensures
        res@ == lowercase(s@),
{
    s.to_lowercase()
}

pub open spec fn same_strings(a: Seq<String>, b: Seq<String>) -> bool {
    a.len() == b.len() && forall|i: int| 0 <= i < a.len() ==> #[trigger] a[i]@ == b[i]@
}

pub open spec fn same_text_option(a: Option<String>, b: Option<String>) -> bool {
    match (a, b) {
        (Some(x), Some(y)) => x@ == y@,
        (None, None) => true,
        _ => false,
    }
}

/// The two queries select and order the same sessions; only the loaded
/// extent (limit and offset) may differ.
pub open spec fn spec_same_session_query(l: SessionFilter, r: SessionFilter) -> bool {
    &&& l.agents@ == r.agents@
    &&& same_strings(l.project_paths@, r.project_paths@)
    &&& l.updated_since == r.updated_since
    &&& l.ignore_pins == r.ignore_pins
    &&& l.favorite_only == r.favorite_only
    &&& l.include_archived == r.include_archived
    &&& l.roots_only == r.roots_only
    &&& same_text_option(l.title_query, r.title_query)
    &&& l.sort == r.sort
    &&& l.ascending == r.ascending
}

fn same_agents(a: &Vec<AgentId>, b: &Vec<AgentId>) -> (res: bool)
    ensures
        res == (a@ == b@),
{
    if a.len() != b.len() {
        return false;
    }
    let mut i: usize = 0;
    while i < a.len()
        invariant
            i <= a.len(),
            a.len() == b.len(),
            forall|k: int| 0 <= k < i ==> a@[k] == b@[k],
        decreases a.len() - i,
    {
        if a[i] != b[i] {
            return false;
        }
        i += 1;
    }
    assert(a@ =~= b@);
    true
}

fn same_string_lists(a: &Vec<String>, b: &Vec<String>) -> (res: bool)
    ensures
        res == same_strings(a@, b@),
{
    if a.len() != b.len() {
        return false;
    }
    let mut i: usize = 0;
    while i < a.len()
        invariant
            i <= a.len(),
            a.len() == b.len(),
            forall|k: int| 0 <= k < i ==> #[trigger] a@[k]@ == b@[k]@,
        decreases a.len() - i,
    {
        if a[i] != b[i] {
            return false;
        }
        i += 1;
    }
    true
}

fn same_query_text(a: &Option<String>, b: &Option<String>) -> (res: bool)
    ensures
        res == same_text_option(*a, *b),
{
    match (a, b) {
        (Some(x), Some(y)) => *x == *y,
        (None, None) => true,
        _ => false,
    }
}

/// Whether a reloaded query is the one already shown, apart from how much of
/// it is loaded.
pub fn same_session_query(left: &SessionFilter, right: &SessionFilter) -> (res: bool)
    ensures
        res == spec_same_session_query(*left, *right),
{
    same_agents(&left.agents, &right.agents) && same_string_lists(
        &left.project_paths,
        &right.project_paths,
    ) && left.updated_since == right.updated_since && left.ignore_pins == right.ignore_pins
        && left.favorite_only == right.favorite_only && left.include_archived
        == right.include_archived && left.roots_only == right.roots_only && same_query_text(
        &left.title_query,
        &right.title_query,
    ) && left.sort == right.sort && left.ascending == right.ascending
}

/// The title query matches the session: after trimming, an empty query
/// matches everything; otherwise the lower-cased query must occur in the
/// lower-cased title or project name.
pub open spec fn title_query_matches(query: Option<String>, session: SessionMeta) -> bool {
    match query {
        None => true,
        Some(q) => {
            let t = spec_trim(q@);
            t.len() == 0 || seq_contains(lowercase(session.title@), lowercase(t)) || seq_contains(
                lowercase(session.project_name@),
                lowercase(t),
            )
        },
    }
}

/// The query admits the session.
pub open spec fn spec_session_matches_filter(s: SessionMeta, f: SessionFilter) -> bool {
    &&& (f.agents@.len() == 0 || f.agents@.contains(s.agent))
    &&& (f.project_paths@.len() == 0 || exists|i: int|
        0 <= i < f.project_paths@.len() && #[trigger] f.project_paths@[i]@ == s.project_path@)
    &&& (f.updated_since matches Some(since) ==> s.updated_at >= since)
    &&& (!f.favorite_only || s.favorite)
    &&& (f.include_archived || !s.archived)
    &&& title_query_matches(f.title_query, s)
}

fn agents_contain(agents: &Vec<AgentId>, agent: AgentId) -> (res: bool)
    ensures
        res == agents@.contains(agent),
{
    let mut i: usize = 0;
    while i < agents.len()
        invariant
            i <= agents.len(),
            forall|k: int| 0 <= k < i ==> agents@[k] != agent,
        decreases agents.len() - i,
    {
        if agents[i] == agent {
            return true;
        }
        i += 1;
    }
    false
}

/// Whether `paths` holds `path`.
pub fn paths_contain(paths: &Vec<String>, path: &String) -> (res: bool)
    ensures
        res == exists|i: int| 0 <= i < paths@.len() && #[trigger] paths@[i]@ == path@,
{
    let mut i: usize = 0;
    while i < paths.len()
        invariant
            i <= paths.len(),
            forall|k: int| 0 <= k < i ==> #[trigger] paths@[k]@ != path@,
        decreases paths.len() - i,
    {
        if paths[i] == *path {
            return true;
        }
        i += 1;
    }
    false
}

fn title_matches(query: &Option<String>, session: &SessionMeta) -> (res: bool)
    ensures
        res == title_query_matches(*query, *session),
{
    match query {
        None => true,
        Some(q) => {
            let t = trim_text(q.as_str());
            if t.is_empty() {
                return true;
            }
            let needle = chars_of(to_lowercase(t).as_str());
            contains_chars(&chars_of(to_lowercase(session.title.as_str()).as_str()), &needle)
                || contains_chars(
                &chars_of(to_lowercase(session.project_name.as_str()).as_str()),
                &needle,
            )
        },
    }
}

/// Whether the session belongs in a list showing this query.
pub fn session_matches_filter(session: &SessionMeta, filter: &SessionFilter) -> (res: bool)
    ensures
        res == spec_session_matches_filter(*session, *filter),
{
    (filter.agents.len() == 0 || agents_contain(&filter.agents, session.agent)) && (
    filter.project_paths.len() == 0 || paths_contain(&filter.project_paths, &session.project_path))
        && match filter.updated_since {
        Some(since) => session.updated_at >= since,
        None => true,
    } && (!filter.favorite_only || session.favorite) && (filter.include_archived
        || !session.archived) && title_matches(&filter.title_query, session)
}

/// The query of the session list for the sidebar selection: an agent or a
/// project narrows it; the starred view lists every starred session flat,
/// other views list root sessions with their nested sessions beneath.
pub fn current_filter(
    selected_agent: Option<AgentId>,
    selected_project: Option<String>,
    favorite_only: bool,
    sort: SortKey,
    ascending: bool,
) -> (res: SessionFilter)
    ensures
        res.agents@ == (match selected_agent {
            Some(a) => seq![a],
            None => Seq::<AgentId>::empty(),
        }),
        res.project_paths@.len() == (if selected_project is Some { 1int } else { 0int }),
        selected_project matches Some(p) ==> res.project_paths@[0] == p,
        res.favorite_only == favorite_only,
        !res.include_archived,
        res.roots_only == !favorite_only,
        res.title_query is None,
        res.sort == sort,
        res.ascending == ascending,
        res.limit == SESSION_PAGE_SIZE,
        res.offset == 0,
        res.updated_since is None,
        !res.ignore_pins,
{
    let mut agents = Vec::new();
    if let Some(a) = selected_agent {
        agents.push(a);
    }
    let mut project_paths = Vec::new();
    if let Some(p) = selected_project {
        project_paths.push(p);
    }
    SessionFilter {
        agents,
        favorite_only,
        include_archived: false,
        roots_only: !favorite_only,
        title_query: None,
        sort,
        ascending,
        limit: SESSION_PAGE_SIZE,
        offset: 0,
        updated_since: None,
        project_paths,
        ignore_pins: false,
    }
}

} // verus!

verus! {

/// Every part of a filter only narrows the list: a session that matches is
/// starred when only starred sessions are asked for, not archived unless
/// archived sessions are asked for, of a chosen agent and a chosen project
/// when some are chosen, and updated no earlier than the date asked for.
/// A filter that asks for nothing keeps every session it may show.
pub proof fn law_filter_narrows(s: SessionMeta, f: SessionFilter)
    ensures
        spec_session_matches_filter(s, f) && f.favorite_only ==> s.favorite,
        spec_session_matches_filter(s, f) && !f.include_archived ==> !s.archived,
        spec_session_matches_filter(s, f) && f.agents@.len() > 0 ==> f.agents@.contains(s.agent),
        spec_session_matches_filter(s, f) && f.project_paths@.len() > 0 ==> exists|i: int|
            0 <= i < f.project_paths@.len() && #[trigger] f.project_paths@[i]@ == s.project_path@,
        spec_session_matches_filter(s, f) && f.updated_since is Some ==> s.updated_at
            >= f.updated_since->0,
        f.agents@.len() == 0 && f.project_paths@.len() == 0 && f.updated_since is None
            && !f.favorite_only && f.title_query is None && (f.include_archived || !s.archived)
            ==> spec_session_matches_filter(s, f),
        f.favorite_only && s.favorite && f.agents@.len() == 0 && f.project_paths@.len() == 0
            && f.updated_since is None && f.title_query is None && !s.archived
            ==> spec_session_matches_filter(s, f),
{
}

} // verus!
