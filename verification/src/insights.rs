//! The insights page: the cycles of its switchable views, its boards, and
//! the captions it derives from the counts.
use vstd::prelude::*;
use crate::calendar::CalendarDate;

verus! {

/// The dimension of the activity chart.
#[derive(Clone, Copy, Debug, PartialEq, Eq, Structural)]
pub enum InsightsRange {
    Hour,
    Weekday,
    Month,
}

impl InsightsRange {
    pub open spec fn spec_next(self) -> InsightsRange {
        match self {
            InsightsRange::Hour => InsightsRange::Weekday,
            InsightsRange::Weekday => InsightsRange::Month,
            InsightsRange::Month => InsightsRange::Hour,
        }
    }

    pub open spec fn spec_prev(self) -> InsightsRange {
        match self {
            InsightsRange::Hour => InsightsRange::Month,
            InsightsRange::Weekday => InsightsRange::Hour,
            InsightsRange::Month => InsightsRange::Weekday,
        }
    }

    /// The heading (a message key of the interface).
    pub fn title(self) -> (res: &'static str)
        ensures
            res@ == match self {
                InsightsRange::Hour => "By hour"@,
                InsightsRange::Weekday => "By weekday"@,
                InsightsRange::Month => "By month"@,
            },
    {
        match self {
            InsightsRange::Hour => "By hour",
            InsightsRange::Weekday => "By weekday",
            InsightsRange::Month => "By month",
        }
    }

    pub fn prev(self) -> (res: Self)
        ensures
            res == self.spec_prev(),
    {
        match self {
            InsightsRange::Hour => InsightsRange::Month,
            InsightsRange::Weekday => InsightsRange::Hour,
            InsightsRange::Month => InsightsRange::Weekday,
        }
    }

    pub fn next(self) -> (res: Self)
        ensures
            res == self.spec_next(),
    {
        match self {
            InsightsRange::Hour => InsightsRange::Weekday,
            InsightsRange::Weekday => InsightsRange::Month,
            InsightsRange::Month => InsightsRange::Hour,
        }
    }
}

/// Counts of one agent, project or model.
#[derive(Clone, Debug)]
pub struct UsageTally {
    pub name: String,
    pub sessions: i64,
    pub prompts: i64,
    /// 0 means the sessions reported no token use.
    pub tokens: i64,
}

/// What a board measures.
#[derive(Clone, Copy, Debug, PartialEq, Eq, Structural)]
pub enum InsightsMetric {
    Sessions,
    Prompts,
    Tokens,
}

impl InsightsMetric {
    pub open spec fn spec_value(self, u: UsageTally) -> i64 {
        match self {
            InsightsMetric::Sessions => u.sessions,
            InsightsMetric::Prompts => u.prompts,
            InsightsMetric::Tokens => u.tokens,
        }
    }

    /// The caption (a message key of the interface).
    pub fn caption(self) -> (res: &'static str)
        ensures
            res@ == match self {
                InsightsMetric::Sessions => "Sessions"@,
                InsightsMetric::Prompts => "Prompts"@,
                InsightsMetric::Tokens => "Tokens"@,
            },
    {
        match self {
            InsightsMetric::Sessions => "Sessions",
            InsightsMetric::Prompts => "Prompts",
            InsightsMetric::Tokens => "Tokens",
        }
    }

    pub fn value(self, u: &UsageTally) -> (res: i64)
        ensures
            res == self.spec_value(*u),
    {
        match self {
            InsightsMetric::Sessions => u.sessions,
            InsightsMetric::Prompts => u.prompts,
            InsightsMetric::Tokens => u.tokens,
        }
    }
}

/// How often one agent looked into past sessions through Wake.
#[derive(Clone, Debug)]
pub struct LookupTally {
    pub name: String,
    pub mcp: i64,
    pub cli: i64,
}

/// Which lookups the lookup board counts.
#[derive(Clone, Copy, Debug, PartialEq, Eq, Structural)]
pub enum LookupView {
    All,
    Mcp,
    Cli,
}

impl LookupView {
    pub open spec fn spec_next(self) -> LookupView {
        match self {
            LookupView::All => LookupView::Mcp,
            LookupView::Mcp => LookupView::Cli,
            LookupView::Cli => LookupView::All,
        }
    }

    pub open spec fn spec_prev(self) -> LookupView {
        match self {
            LookupView::All => LookupView::Cli,
            LookupView::Mcp => LookupView::All,
            LookupView::Cli => LookupView::Mcp,
        }
    }

    pub open spec fn spec_value(self, l: LookupTally) -> int {
        match self {
            LookupView::All => l.mcp + l.cli,
            LookupView::Mcp => l.mcp as int,
            LookupView::Cli => l.cli as int,
        }
    }

    /// The caption; "MCP" and "CLI" are names and stay untranslated.
    pub fn caption(self) -> (res: &'static str)
        ensures
            res@ == match self {
                LookupView::All => "All"@,
                LookupView::Mcp => "MCP"@,
                LookupView::Cli => "CLI"@,
            },
    {
        match self {
            LookupView::All => "All",
            LookupView::Mcp => "MCP",
            LookupView::Cli => "CLI",
        }
    }

    pub fn value(self, l: &LookupTally) -> (res: i64)
        requires
            i64::MIN <= l.mcp + l.cli <= i64::MAX,
        ensures
            res == self.spec_value(*l),
    {
        match self {
            LookupView::All => l.mcp + l.cli,
            LookupView::Mcp => l.mcp,
            LookupView::Cli => l.cli,
        }
    }

    pub fn prev(self) -> (res: Self)
        ensures
            res == self.spec_prev(),
    {
        match self {
            LookupView::All => LookupView::Cli,
            LookupView::Mcp => LookupView::All,
            LookupView::Cli => LookupView::Mcp,
        }
    }

    pub fn next(self) -> (res: Self)
        ensures
            res == self.spec_next(),
    {
        match self {
            LookupView::All => LookupView::Mcp,
            LookupView::Mcp => LookupView::Cli,
            LookupView::Cli => LookupView::All,
        }
    }
}

/// The boards of the insights page.
#[derive(Clone, Copy, Debug, PartialEq, Eq, Structural)]
pub enum UsageBoard {
    Agents,
    Projects,
    Models,
}

impl UsageBoard {
    pub fn title(self) -> (res: &'static str)
        ensures
            res@ == match self {
                UsageBoard::Agents => "Agents"@,
                UsageBoard::Projects => "Projects"@,
                UsageBoard::Models => "Models"@,
            },
    {
        match self {
            UsageBoard::Agents => "Agents",
            UsageBoard::Projects => "Projects",
            UsageBoard::Models => "Models",
        }
    }

    pub fn arrow_id(self) -> (res: &'static str)
        ensures
            res@ == match self {
                UsageBoard::Agents => "agents-arrow"@,
                UsageBoard::Projects => "projects-arrow"@,
                UsageBoard::Models => "models-arrow"@,
            },
    {
        match self {
            UsageBoard::Agents => "agents-arrow",
            UsageBoard::Projects => "projects-arrow",
            UsageBoard::Models => "models-arrow",
        }
    }

    /// How many rows the board lists: every agent, the top six projects or
    /// models.
    pub fn limit(self) -> (res: usize)
        ensures
            res == match self {
                UsageBoard::Agents => usize::MAX,
                _ => 6,
            },
    {
        match self {
            UsageBoard::Agents => usize::MAX,
            _ => 6,
        }
    }
}

/// Cycling through the views twice in opposite directions changes nothing,
/// and three steps one way come back: every view is reached.
pub proof fn law_view_cycles(r: InsightsRange, l: LookupView)
    ensures
        r.spec_next().spec_prev() == r,
        r.spec_prev().spec_next() == r,
        r.spec_next().spec_next().spec_next() == r,
        r.spec_next() != r,
        l.spec_next().spec_prev() == l,
        l.spec_prev().spec_next() == l,
        l.spec_next().spec_next().spec_next() == l,
        l.spec_next() != l,
{
}

} // verus!

verus! {

/// Where row `x` goes among `sorted` rows in descending order of `vals`,
/// from position `i` on: after every row of at least its value.
pub open spec fn desc_pos_from(sorted: Seq<usize>, vals: Seq<i64>, x: usize, i: int) -> int
    decreases sorted.len() - i,
{
    if i < 0 || i >= sorted.len() {
        sorted.len() as int
    } else if vals[sorted[i] as int] < vals[x as int] {
        i
    } else {
        desc_pos_from(sorted, vals, x, i + 1)
    }
}

/// The rows `idx` in descending order of `vals`, rows of equal value
/// keeping their order (a stable sort).
pub open spec fn desc_sorted(idx: Seq<usize>, vals: Seq<i64>) -> Seq<usize>
    decreases idx.len(),
{
    if idx.len() == 0 {
        idx
    } else {
        let prev = desc_sorted(idx.drop_last(), vals);
        prev.insert(desc_pos_from(prev, vals, idx.last(), 0), idx.last())
    }
}

proof fn lemma_desc_pos_bounds(sorted: Seq<usize>, vals: Seq<i64>, x: usize, i: int)
    requires
        0 <= i,
    ensures
        0 <= desc_pos_from(sorted, vals, x, i) <= sorted.len(),
    decreases sorted.len() - i,
{
    if i < sorted.len() && !(vals[sorted[i] as int] < vals[x as int]) {
        lemma_desc_pos_bounds(sorted, vals, x, i + 1);
    }
}

proof fn lemma_desc_sorted_len(idx: Seq<usize>, vals: Seq<i64>)
    ensures
        desc_sorted(idx, vals).len() == idx.len(),
    decreases idx.len(),
{
    if idx.len() > 0 {
        lemma_desc_sorted_len(idx.drop_last(), vals);
        lemma_desc_pos_bounds(desc_sorted(idx.drop_last(), vals), vals, idx.last(), 0);
    }
}

/// Every row of `idx` indexes `vals`.
pub open spec fn indexes(idx: Seq<usize>, vals: Seq<i64>) -> bool {
    forall|i: int| 0 <= i < idx.len() ==> (#[trigger] idx[i]) < vals.len()
}

fn desc_position(sorted: &Vec<usize>, vals: &Vec<i64>, x: usize) -> (res: usize)
    requires
        indexes(sorted@, vals@),
        x < vals@.len(),
    ensures
        res as int == desc_pos_from(sorted@, vals@, x, 0),
{
    let mut p: usize = 0;
    while p < sorted.len()
        invariant
            p <= sorted.len(),
            x < vals@.len(),
            indexes(sorted@, vals@),
            desc_pos_from(sorted@, vals@, x, 0) == desc_pos_from(sorted@, vals@, x, p as int),
        decreases sorted.len() - p,
    {
        if vals[sorted[p]] < vals[x] {
            return p;
        }
        p += 1;
    }
    p
}

fn sort_desc(idx: Vec<usize>, vals: &Vec<i64>) -> (res: Vec<usize>)
    requires
        indexes(idx@, vals@),
    ensures
        res@ == desc_sorted(idx@, vals@),
        indexes(res@, vals@),
{
    let ghost all = idx@;
    let n = idx.len();
    let mut rest = idx;
    let mut sorted: Vec<usize> = Vec::new();
    let mut i: usize = 0;
    while rest.len() > 0
        invariant
            i <= n,
            all.len() == n,
            indexes(all, vals@),
            rest@ == all.subrange(i as int, n as int),
            sorted@ == desc_sorted(all.take(i as int), vals@),
            indexes(sorted@, vals@),
        decreases rest.len(),
    {
        let x = rest.remove(0);
        proof {
            assert(x == all[i as int]);
            assert(rest@ =~= all.subrange(i + 1, n as int));
            let t = all.take(i + 1 as int);
            assert(t.drop_last() =~= all.take(i as int));
            assert(t.last() == all[i as int]);
            lemma_desc_pos_bounds(sorted@, vals@, x, 0);
        }
        let p = desc_position(&sorted, vals, x);
        let ghost before = sorted@;
        sorted.insert(p, x);
        proof {
            assert forall|k: int| 0 <= k < sorted@.len() implies (#[trigger] sorted@[k]) < vals@.len() by {
                if k < p {
                    assert(sorted@[k] == before[k]);
                } else if k > p {
                    assert(sorted@[k] == before[k - 1]);
                }
            }
        }
        i += 1;
    }
    assert(all.take(n as int) =~= all);
    sorted
}

} // verus!

verus! {

/// The rows `0..n` of `rows` a board of `metric` lists: under tokens only
/// rows that reported token use.
pub open spec fn listed_rows(rows: Seq<UsageTally>, metric: InsightsMetric, n: int) -> Seq<usize>
    decreases n,
{
    if n <= 0 {
        Seq::empty()
    } else {
        let prev = listed_rows(rows, metric, n - 1);
        if metric != InsightsMetric::Tokens || rows[n - 1].tokens > 0 {
            prev.push((n - 1) as usize)
        } else {
            prev
        }
    }
}

/// The largest value of the rows `idx` (of which there is one at least).
pub open spec fn largest(idx: Seq<usize>, vals: Seq<i64>) -> i64
    decreases idx.len(),
{
    if idx.len() <= 1 {
        vals[idx[0] as int]
    } else {
        let m = largest(idx.drop_last(), vals);
        let v = vals[idx.last() as int];
        if v > m {
            v
        } else {
            m
        }
    }
}

/// The value bars are scaled to: the largest shown, 1 when nothing is.
pub open spec fn bar_scale(idx: Seq<usize>, vals: Seq<i64>) -> i64 {
    if idx.len() == 0 {
        1
    } else {
        largest(idx, vals)
    }
}

/// The metrics a board cycles through: tokens only when some row reported
/// token use.
pub open spec fn available_metrics(rows: Seq<UsageTally>) -> Seq<InsightsMetric> {
    if exists|i: int| 0 <= i < rows.len() && (#[trigger] rows[i]).tokens > 0 {
        seq![InsightsMetric::Sessions, InsightsMetric::Tokens, InsightsMetric::Prompts]
    } else {
        seq![InsightsMetric::Sessions, InsightsMetric::Prompts]
    }
}

/// The place of `stored` in the cycle; the first when it is not offered.
pub open spec fn metric_slot(avail: Seq<InsightsMetric>, stored: InsightsMetric) -> int {
    if exists|i: int| 0 <= i < avail.len() && avail[i] == stored {
        choose|i: int| 0 <= i < avail.len() && avail[i] == stored
    } else {
        0
    }
}

/// A board as shown.
#[derive(Clone, Debug)]
pub struct BoardView {
    pub metric: InsightsMetric,
    /// The metric the left arrow switches to.
    pub to_prev: InsightsMetric,
    /// The metric the right arrow switches to.
    pub to_next: InsightsMetric,
    /// The rows shown, as positions in the input, largest value first.
    pub rows: Vec<usize>,
    /// The value a full bar stands for.
    pub max: i64,
}

fn largest_of(idx: &Vec<usize>, vals: &Vec<i64>) -> (res: i64)
    requires
        indexes(idx@, vals@),
    ensures
        res == bar_scale(idx@, vals@),
{
    if idx.len() == 0 {
        return 1;
    }
    let mut m = vals[idx[0]];
    let mut i: usize = 1;
    while i < idx.len()
        invariant
            1 <= i <= idx.len(),
            indexes(idx@, vals@),
            m == largest(idx@.take(i as int), vals@),
        decreases idx.len() - i,
    {
        proof {
            let t = idx@.take(i + 1 as int);
            assert(t.drop_last() =~= idx@.take(i as int));
            assert(t.last() == idx@[i as int]);
        }
        let v = vals[idx[i]];
        if v > m {
            m = v;
        }
        i += 1;
    }
    assert(idx@.take(i as int) =~= idx@);
    m
}

/// A board of `rows` (in the index's order) showing `stored` when it is
/// offered: its rows in descending order of the metric (ties keep their
/// order), at most `board.limit()` of them, and the arrows' targets.
pub fn usage_board(rows: &Vec<UsageTally>, stored: InsightsMetric, board: UsageBoard) -> (res: BoardView)
    ensures
        ({
            let avail = available_metrics(rows@);
            let slot = metric_slot(avail, stored);
            let metric = avail[slot];
            let vals = rows@.map_values(|u: UsageTally| metric.spec_value(u));
            let sorted = desc_sorted(listed_rows(rows@, metric, rows@.len() as int), vals);
            let limit = match board {
                UsageBoard::Agents => usize::MAX as int,
                _ => 6int,
            };
            let shown = sorted.take(if sorted.len() <= limit {
                sorted.len() as int
            } else {
                limit
            });
            &&& res.metric == metric
            &&& res.to_prev == avail[(slot + avail.len() - 1) % (avail.len() as int)]
            &&& res.to_next == avail[(slot + 1) % (avail.len() as int)]
            &&& res.rows@ == shown
            &&& res.max == bar_scale(shown, vals)
        }),
{
    let mut has_tokens = false;
    let mut i: usize = 0;
    while i < rows.len()
        invariant
            i <= rows.len(),
            has_tokens == exists|k: int| 0 <= k < i && (#[trigger] rows@[k]).tokens > 0,
        decreases rows.len() - i,
    {
        if rows[i].tokens > 0 {
            has_tokens = true;
        }
        i += 1;
    }
    let avail: Vec<InsightsMetric> = if has_tokens {
        vec![InsightsMetric::Sessions, InsightsMetric::Tokens, InsightsMetric::Prompts]
    } else {
        vec![InsightsMetric::Sessions, InsightsMetric::Prompts]
    };
    assert(avail@ == available_metrics(rows@));
    let mut slot: usize = 0;
    let mut found = false;
    let mut k: usize = 0;
    while k < avail.len()
        invariant
            k <= avail.len(),
            avail@ == available_metrics(rows@),
            !found ==> slot == 0 && forall|j: int| 0 <= j < k ==> avail@[j] != stored,
            found ==> slot < avail.len() && avail@[slot as int] == stored,
        decreases avail.len() - k,
    {
        if !found && avail[k] == stored {
            slot = k;
            found = true;
        }
        k += 1;
    }
    proof {
        let a = avail@;
        if found {
            let c = choose|j: int| 0 <= j < a.len() && a[j] == stored;
            assert(a[c] == a[slot as int]);
            assert(a.len() == 2 || a.len() == 3);
            assert(a.len() == 2 ==> a[0] != a[1]);
            assert(a.len() == 3 ==> a[0] != a[1] && a[1] != a[2] && a[0] != a[2]);
        }
    }
    let n = avail.len();
    let metric = avail[slot];
    let to_prev = avail[(slot + n - 1) % n];
    let to_next = avail[(slot + 1) % n];
    let mut vals: Vec<i64> = Vec::new();
    let mut listed: Vec<usize> = Vec::new();
    let mut j: usize = 0;
    while j < rows.len()
        invariant
            j <= rows.len(),
            vals@ == rows@.take(j as int).map_values(|u: UsageTally| metric.spec_value(u)),
            listed@ == listed_rows(rows@, metric, j as int),
            forall|q: int| 0 <= q < listed@.len() ==> (#[trigger] listed@[q]) < j,
        decreases rows.len() - j,
    {
        vals.push(metric.value(&rows[j]));
        proof {
            assert(rows@.take(j + 1 as int) =~= rows@.take(j as int).push(rows@[j as int]));
            assert(vals@ =~= rows@.take(j + 1 as int).map_values(
                |u: UsageTally| metric.spec_value(u),
            ));
        }
        if metric != InsightsMetric::Tokens || rows[j].tokens > 0 {
            listed.push(j);
        }
        j += 1;
    }
    assert(rows@.take(j as int) =~= rows@);
    proof {
        assert(rows@.take(rows@.len() as int) =~= rows@);
    }
    let sorted = sort_desc(listed, &vals);
    let ghost full = sorted@;
    proof {
        lemma_desc_sorted_len(listed_rows(rows@, metric, rows@.len() as int), vals@);
    }
    let limit = board.limit();
    let mut shown: Vec<usize> = Vec::new();
    let mut s: usize = 0;
    while s < sorted.len() && s < limit
        invariant
            s <= sorted.len(),
            s <= limit,
            shown@ == sorted@.take(s as int),
        decreases sorted.len() - s,
    {
        shown.push(sorted[s]);
        proof {
            assert(sorted@.take(s + 1 as int) =~= sorted@.take(s as int).push(sorted@[s as int]));
        }
        s += 1;
    }
    proof {
        assert forall|q: int| 0 <= q < shown@.len() implies (#[trigger] shown@[q]) < vals@.len() by {
            assert(shown@[q] == sorted@[q]);
        }
    }
    let max = largest_of(&shown, &vals);
    proof {
        let avail_s = available_metrics(rows@);
        assert(slot as int == metric_slot(avail_s, stored));
        assert(metric == avail_s[metric_slot(avail_s, stored)]);
        assert(vals@ == rows@.map_values(|u: UsageTally| metric.spec_value(u)));
        assert(listed_rows(rows@, metric, j as int) == listed_rows(rows@, metric, rows@.len() as int));
        assert(sorted@ == desc_sorted(listed_rows(rows@, metric, rows@.len() as int), vals@));
        assert(to_prev == avail_s[(metric_slot(avail_s, stored) + avail_s.len() - 1) % (avail_s.len() as int)]);
        assert(to_next == avail_s[(metric_slot(avail_s, stored) + 1) % (avail_s.len() as int)]);
        let lim = match board {
            UsageBoard::Agents => usize::MAX as int,
            _ => 6int,
        };
        assert(limit == lim);
        assert(s == (if sorted@.len() <= lim { sorted@.len() as int } else { lim }));
    }
    BoardView { metric, to_prev, to_next, rows: shown, max }
}

} // verus!

verus! {

/// The rows `0..n` of `rows` with a lookup under `view`.
pub open spec fn looked_up_rows(rows: Seq<LookupTally>, view: LookupView, n: int) -> Seq<usize>
    decreases n,
{
    if n <= 0 {
        Seq::empty()
    } else {
        let prev = looked_up_rows(rows, view, n - 1);
        if view.spec_value(rows[n - 1]) > 0 {
            prev.push((n - 1) as usize)
        } else {
            prev
        }
    }
}

pub open spec fn mcp_total(rows: Seq<LookupTally>) -> int
    decreases rows.len(),
{
    if rows.len() == 0 {
        0
    } else {
        mcp_total(rows.drop_last()) + rows.last().mcp
    }
}

pub open spec fn cli_total(rows: Seq<LookupTally>) -> int
    decreases rows.len(),
{
    if rows.len() == 0 {
        0
    } else {
        cli_total(rows.drop_last()) + rows.last().cli
    }
}

/// The lookup board as shown.
#[derive(Clone, Debug)]
pub struct LookupBoard {
    /// Lookups through MCP over all agents.
    pub mcp: i64,
    /// Lookups through the command line over all agents.
    pub cli: i64,
    /// The agents with lookups under the view, most first (ties keep
    /// their order), as positions in the input.
    pub rows: Vec<usize>,
    pub max: i64,
}

/// Every running total of the lookups fits an `i64`.
pub open spec fn lookups_fit(rows: Seq<LookupTally>) -> bool {
    &&& forall|k: int|
        0 <= k <= rows.len() ==> i64::MIN <= #[trigger] mcp_total(rows.take(k)) <= i64::MAX
    &&& forall|k: int|
        0 <= k <= rows.len() ==> i64::MIN <= #[trigger] cli_total(rows.take(k)) <= i64::MAX
    &&& forall|k: int| 0 <= k < rows.len() ==> i64::MIN <= (#[trigger] rows[k]).mcp + rows[k].cli <= i64::MAX
}

/// The lookup board of `rows` under `view`.
pub fn lookup_board(rows: &Vec<LookupTally>, view: LookupView) -> (res: LookupBoard)
    requires
        lookups_fit(rows@),
    ensures
        res.mcp == mcp_total(rows@),
        res.cli == cli_total(rows@),
        ({
            let vals = rows@.map_values(|l: LookupTally| view.spec_value(l) as i64);
            let sorted = desc_sorted(looked_up_rows(rows@, view, rows@.len() as int), vals);
            &&& res.rows@ == sorted
            &&& res.max == bar_scale(sorted, vals)
        }),
{
    let mut mcp: i64 = 0;
    let mut cli: i64 = 0;
    let mut vals: Vec<i64> = Vec::new();
    let mut listed: Vec<usize> = Vec::new();
    let mut i: usize = 0;
    while i < rows.len()
        invariant
            i <= rows.len(),
            lookups_fit(rows@),
            mcp == mcp_total(rows@.take(i as int)),
            cli == cli_total(rows@.take(i as int)),
            vals@ == rows@.take(i as int).map_values(|l: LookupTally| view.spec_value(l) as i64),
            listed@ == looked_up_rows(rows@, view, i as int),
            forall|q: int| 0 <= q < listed@.len() ==> (#[trigger] listed@[q]) < i,
        decreases rows.len() - i,
    {
        let l = &rows[i];
        proof {
            let t = rows@.take(i + 1 as int);
            assert(t.drop_last() =~= rows@.take(i as int));
            assert(t.last() == rows@[i as int]);
            assert(i64::MIN <= mcp_total(t) <= i64::MAX);
            assert(i64::MIN <= cli_total(t) <= i64::MAX);
            assert(i64::MIN <= rows@[i as int].mcp + rows@[i as int].cli <= i64::MAX);
        }
        mcp = mcp + l.mcp;
        cli = cli + l.cli;
        let v = view.value(l);
        vals.push(v);
        proof {
            assert(rows@.take(i + 1 as int) =~= rows@.take(i as int).push(rows@[i as int]));
            assert(vals@ =~= rows@.take(i + 1 as int).map_values(
                |l: LookupTally| view.spec_value(l) as i64,
            ));
        }
        if v > 0 {
            listed.push(i);
        }
        i += 1;
    }
    assert(rows@.take(i as int) =~= rows@);
    let sorted = sort_desc(listed, &vals);
    let max = largest_of(&sorted, &vals);
    LookupBoard { mcp, cli, rows: sorted, max }
}

/// The last position of the largest value of `values` and that value;
/// (0, 0) when there are none.
pub open spec fn spec_peak(values: Seq<i64>) -> (int, i64)
    decreases values.len(),
{
    if values.len() == 0 {
        (0, 0)
    } else if values.len() == 1 {
        (0, values[0])
    } else {
        let (p, n) = spec_peak(values.drop_last());
        if values.last() >= n {
            (values.len() - 1, values.last())
        } else {
            (p, n)
        }
    }
}

/// The bar the activity chart highlights: the last of the largest.
pub fn peak(values: &Vec<i64>) -> (res: (usize, i64))
    ensures
        (res.0 as int, res.1) == spec_peak(values@),
{
    if values.len() == 0 {
        return (0, 0);
    }
    let mut p: usize = 0;
    let mut n: i64 = values[0];
    let mut i: usize = 1;
    while i < values.len()
        invariant
            1 <= i <= values.len(),
            p < i,
            (p as int, n) == spec_peak(values@.take(i as int)),
        decreases values.len() - i,
    {
        proof {
            let t = values@.take(i + 1 as int);
            assert(t.drop_last() =~= values@.take(i as int));
            assert(t.last() == values@[i as int]);
        }
        if values[i] >= n {
            p = i;
            n = values[i];
        }
        i += 1;
    }
    assert(values@.take(i as int) =~= values@);
    (p, n)
}

/// An hour of the day on a 12-hour clock.
#[derive(Clone, Copy, Debug, PartialEq, Eq, Structural)]
pub enum HourLabel {
    Midnight,
    Noon,
    Am(usize),
    Pm(usize),
}

pub open spec fn spec_hour_label(h: usize) -> HourLabel {
    let h = h % 24;
    if h == 0 {
        HourLabel::Midnight
    } else if h == 12 {
        HourLabel::Noon
    } else if h < 12 {
        HourLabel::Am(h)
    } else {
        HourLabel::Pm((h - 12) as usize)
    }
}

/// The label of hour `h` (taken modulo 24): "12 AM", "12 PM", "h AM" or
/// "h PM".
pub fn hour_label(h: usize) -> (res: HourLabel)
    ensures
        res == spec_hour_label(h),
{
    let h = h % 24;
    if h == 0 {
        HourLabel::Midnight
    } else if h == 12 {
        HourLabel::Noon
    } else if h < 12 {
        HourLabel::Am(h)
    } else {
        HourLabel::Pm(h - 12)
    }
}

/// The caption of the activity chart.
#[derive(Clone, Copy, Debug, PartialEq, Eq, Structural)]
pub enum DistCaption {
    /// No activity: the chart's plain caption.
    Plain,
    AroundHour(HourLabel),
    /// On the weekday at this position, Monday first.
    OnWeekday(usize),
    /// In the month at this position, January first.
    InMonth(usize),
}

/// The caption naming the busiest bar `peak`, of `peak_n` prompts.
pub fn dist_caption(range: InsightsRange, peak: usize, peak_n: i64) -> (res: DistCaption)
    ensures
        res == (if peak_n == 0 {
            DistCaption::Plain
        } else {
            match range {
                InsightsRange::Hour => DistCaption::AroundHour(spec_hour_label(peak)),
                InsightsRange::Weekday => DistCaption::OnWeekday(peak),
                InsightsRange::Month => DistCaption::InMonth(peak),
            }
        }),
{
    if peak_n == 0 {
        return DistCaption::Plain;
    }
    match range {
        InsightsRange::Hour => DistCaption::AroundHour(hour_label(peak)),
        InsightsRange::Weekday => DistCaption::OnWeekday(peak),
        InsightsRange::Month => DistCaption::InMonth(peak),
    }
}

/// The number of prompts to show: none reads "No prompts".
pub fn prompts_label(n: i64) -> (res: Option<i64>)
    ensures
        res == (if n == 0 {
            None
        } else {
            Some(n)
        }),
{
    if n == 0 {
        None
    } else {
        Some(n)
    }
}

/// How a week compares with the week before.
#[derive(Clone, Copy, Debug, PartialEq, Eq, Structural)]
pub enum WeekNote {
    NoActivity,
    NewThisWeek,
    /// The caller shows the rounded change in percent.
    Changed,
}

pub fn week_note(now: i64, before: i64) -> (res: WeekNote)
    ensures
        res == (if now == 0 && before == 0 {
            WeekNote::NoActivity
        } else if before == 0 {
            WeekNote::NewThisWeek
        } else {
            WeekNote::Changed
        }),
{
    if now == 0 && before == 0 {
        WeekNote::NoActivity
    } else if before == 0 {
        WeekNote::NewThisWeek
    } else {
        WeekNote::Changed
    }
}

} // verus!

verus! {

/// Prompts per week of one agent, as the index reports them (agents in
/// descending order of their total).
#[derive(Clone, Debug)]
pub struct TrendSeries {
    pub name: String,
    pub weekly: Vec<i64>,
}

/// One layer of the trend chart.
#[derive(Clone, Debug)]
pub struct TrendLayer {
    pub name: String,
    pub weekly: Vec<i64>,
    /// The layer that merges every agent past the first five.
    pub other: bool,
}

/// Agents the trend chart draws on their own.
pub const TREND_TOP: usize = 5;

/// The prompts of week `w` of the series `TREND_TOP..k` together; a
/// series without that week adds nothing.
pub open spec fn other_week(series: Seq<TrendSeries>, w: int, k: int) -> int
    decreases k,
{
    if k <= TREND_TOP {
        0
    } else {
        other_week(series, w, k - 1) + if 0 <= w < series[k - 1].weekly@.len() {
            series[k - 1].weekly@[w] as int
        } else {
            0
        }
    }
}

/// The merged weeks fit an `i64` at every step.
pub open spec fn other_weeks_fit(series: Seq<TrendSeries>, weeks: usize) -> bool {
    forall|w: int, k: int|
        0 <= w < weeks && TREND_TOP <= k <= series.len() ==> i64::MIN <= #[trigger] other_week(
            series,
            w,
            k,
        ) <= i64::MAX
}

fn copy_weeks(v: &Vec<i64>) -> (res: Vec<i64>)
    ensures
        res@ == v@,
{
    let mut out: Vec<i64> = Vec::new();
    let mut i: usize = 0;
    while i < v.len()
        invariant
            i <= v.len(),
            out@ == v@.take(i as int),
        decreases v.len() - i,
    {
        out.push(v[i]);
        proof {
            assert(v@.take(i + 1 as int) =~= v@.take(i as int).push(v@[i as int]));
        }
        i += 1;
    }
    assert(v@.take(i as int) =~= v@);
    out
}

/// The layers of the trend chart over `weeks` weeks: the first five
/// agents each on their own, the rest merged into one layer.
pub fn trend_layers(series: &Vec<TrendSeries>, weeks: usize) -> (res: Vec<TrendLayer>)
    requires
        other_weeks_fit(series@, weeks),
    ensures
        ({
            let own = if series@.len() <= TREND_TOP {
                series@.len() as int
            } else {
                TREND_TOP as int
            };
            &&& res@.len() == own + if series@.len() > TREND_TOP {
                1int
            } else {
                0
            }
            &&& forall|i: int|
                0 <= i < own ==> (#[trigger] res@[i]).name@ == series@[i].name@
                    && res@[i].weekly@ == series@[i].weekly@ && !res@[i].other
            &&& series@.len() > TREND_TOP ==> {
                &&& res@[own].other
                &&& res@[own].weekly@.len() == weeks
                &&& forall|w: int|
                    0 <= w < weeks ==> #[trigger] res@[own].weekly@[w] == other_week(
                        series@,
                        w,
                        series@.len() as int,
                    )
            }
        }),
{
    let mut layers: Vec<TrendLayer> = Vec::new();
    let mut i: usize = 0;
    while i < series.len() && i < TREND_TOP
        invariant
            i <= series.len(),
            i <= TREND_TOP,
            layers@.len() == i,
            forall|k: int|
                0 <= k < i ==> (#[trigger] layers@[k]).name@ == series@[k].name@
                    && layers@[k].weekly@ == series@[k].weekly@ && !layers@[k].other,
        decreases series.len() - i,
    {
        layers.push(
            TrendLayer {
                name: series[i].name.clone(),
                weekly: copy_weeks(&series[i].weekly),
                other: false,
            },
        );
        i += 1;
    }
    if series.len() > TREND_TOP {
        let mut other: Vec<i64> = Vec::new();
        let mut w: usize = 0;
        while w < weeks
            invariant
                w <= weeks,
                other@.len() == w,
                forall|q: int| 0 <= q < w ==> other@[q] == 0,
            decreases weeks - w,
        {
            other.push(0);
            w += 1;
        }
        let mut k: usize = TREND_TOP;
        while k < series.len()
            invariant
                TREND_TOP <= k <= series.len(),
                other_weeks_fit(series@, weeks),
                other@.len() == weeks,
                forall|q: int| 0 <= q < weeks ==> #[trigger] other@[q] == other_week(series@, q, k as int),
            decreases series.len() - k,
        {
            let weekly = &series[k].weekly;
            let mut q: usize = 0;
            while q < weeks
                invariant
                    TREND_TOP <= k < series.len(),
                    q <= weeks,
                    weekly@ == series@[k as int].weekly@,
                    other_weeks_fit(series@, weeks),
                    other@.len() == weeks,
                    forall|r: int|
                        0 <= r < q ==> #[trigger] other@[r] == other_week(series@, r, k + 1),
                    forall|r: int|
                        q <= r < weeks ==> #[trigger] other@[r] == other_week(series@, r, k as int),
                decreases weeks - q,
            {
                if q < weekly.len() {
                    proof {
                        assert(i64::MIN <= other_week(series@, q as int, k + 1) <= i64::MAX);
                    }
                    let v = other[q] + weekly[q];
                    other.set(q, v);
                }
                q += 1;
            }
            k += 1;
        }
        layers.push(TrendLayer { name: "Other".to_owned(), weekly: other, other: true });
    }
    layers
}

/// The leader among `layers[0..n]` in week `w`: the agent layer with the
/// most prompts that week (the last of equals), if any had some.
pub open spec fn leader_in(layers: Seq<TrendLayer>, w: int, n: int) -> Option<int>
    decreases n,
{
    if n <= 0 {
        None
    } else {
        let prev = leader_in(layers, w, n - 1);
        let l = layers[n - 1];
        if !l.other && l.weekly@[w] > 0 {
            match prev {
                Some(p) => if l.weekly@[w] >= layers[p].weekly@[w] {
                    Some(n - 1)
                } else {
                    Some(p)
                },
                None => Some(n - 1),
            }
        } else {
            prev
        }
    }
}

/// The agent leading this week, or last week when nobody has prompts yet
/// this week.
pub open spec fn trend_leader(layers: Seq<TrendLayer>, weeks: int) -> Option<int> {
    match leader_in(layers, weeks - 1, layers.len() as int) {
        Some(i) => Some(i),
        None => leader_in(layers, weeks - 2, layers.len() as int),
    }
}

fn leader_at(layers: &Vec<TrendLayer>, w: usize) -> (res: Option<usize>)
    requires
        forall|i: int|
            0 <= i < layers@.len() && !(#[trigger] layers@[i]).other ==> w < layers@[i].weekly@.len(),
    ensures
        match res {
            Some(i) => leader_in(layers@, w as int, layers@.len() as int) == Some(i as int),
            None => leader_in(layers@, w as int, layers@.len() as int) is None,
        },
{
    let mut best: Option<usize> = None;
    let mut i: usize = 0;
    while i < layers.len()
        invariant
            i <= layers.len(),
            forall|k: int|
                0 <= k < layers@.len() && !(#[trigger] layers@[k]).other ==> w < layers@[k].weekly@.len(),
            match best {
                Some(b) => leader_in(layers@, w as int, i as int) == Some(b as int) && b < i
                    && !layers@[b as int].other,
                None => leader_in(layers@, w as int, i as int) is None,
            },
        decreases layers.len() - i,
    {
        let l = &layers[i];
        if !l.other && l.weekly[w] > 0 {
            best = match best {
                Some(b) => if l.weekly[w] >= layers[b].weekly[w] {
                    Some(i)
                } else {
                    Some(b)
                },
                None => Some(i),
            };
        }
        i += 1;
    }
    best
}

/// The agent the trend caption names as leading: this week's leader, or
/// last week's when nobody has prompts yet this week.
pub fn trend_caption(layers: &Vec<TrendLayer>, weeks: usize) -> (res: Option<String>)
    requires
        weeks >= 2,
        forall|i: int|
            0 <= i < layers@.len() && !(#[trigger] layers@[i]).other ==> weeks <= layers@[i].weekly@.len(),
    ensures
        match trend_leader(layers@, weeks as int) {
            Some(i) => res matches Some(n) && n@ == layers@[i].name@,
            None => res is None,
        },
{
    let leader = match leader_at(layers, weeks - 1) {
        Some(i) => Some(i),
        None => leader_at(layers, weeks - 2),
    };
    match leader {
        Some(i) => {
            proof {
                lemma_leader_in_bounds(layers@, (weeks - 1) as int, layers@.len() as int);
                lemma_leader_in_bounds(layers@, (weeks - 2) as int, layers@.len() as int);
            }
            Some(layers[i].name.clone())
        },
        None => None,
    }
}

proof fn lemma_leader_in_bounds(layers: Seq<TrendLayer>, w: int, n: int)
    requires
        n <= layers.len(),
    ensures
        leader_in(layers, w, n) matches Some(i) ==> 0 <= i < n,
    decreases n,
{
    if n > 0 {
        lemma_leader_in_bounds(layers, w, n - 1);
    }
}

} // verus!

verus! {

/// The prompts of week `w` over the first `k` layers.
pub open spec fn column_total(layers: Seq<TrendLayer>, w: int, k: int) -> int
    decreases k,
{
    if k <= 0 {
        0
    } else {
        column_total(layers, w, k - 1) + layers[k - 1].weekly@[w]
    }
}

/// Every layer has a count for each of the `weeks` weeks.
pub open spec fn weeks_known(layers: Seq<TrendLayer>, weeks: int) -> bool {
    forall|i: int| 0 <= i < layers.len() ==> weeks <= (#[trigger] layers[i]).weekly@.len()
}

/// Every running total of every week fits an `i64`.
pub open spec fn columns_fit(layers: Seq<TrendLayer>, weeks: int) -> bool {
    forall|w: int, k: int|
        0 <= w < weeks && 0 <= k <= layers.len() ==> i64::MIN <= #[trigger] column_total(
            layers,
            w,
            k,
        ) <= i64::MAX
}

/// The largest of `totals`, and at least 1.
pub open spec fn column_scale(totals: Seq<i64>) -> i64
    decreases totals.len(),
{
    if totals.len() == 0 {
        1
    } else {
        let m = column_scale(totals.drop_last());
        if totals.last() > m {
            totals.last()
        } else {
            m
        }
    }
}

/// The height of each week's column of the trend chart (all layers
/// together), and the total a full column stands for.
pub fn trend_totals(layers: &Vec<TrendLayer>, weeks: usize) -> (res: (Vec<i64>, i64))
    requires
        weeks_known(layers@, weeks as int),
        columns_fit(layers@, weeks as int),
    ensures
        res.0@.len() == weeks,
        forall|w: int| 0 <= w < weeks ==> #[trigger] res.0@[w] == column_total(
            layers@,
            w,
            layers@.len() as int,
        ),
        res.1 == column_scale(res.0@),
{
    let mut totals: Vec<i64> = Vec::new();
    let mut scale: i64 = 1;
    let mut w: usize = 0;
    while w < weeks
        invariant
            w <= weeks,
            weeks_known(layers@, weeks as int),
            columns_fit(layers@, weeks as int),
            totals@.len() == w,
            forall|v: int| 0 <= v < w ==> #[trigger] totals@[v] == column_total(
                layers@,
                v,
                layers@.len() as int,
            ),
            scale == column_scale(totals@),
        decreases weeks - w,
    {
        let mut sum: i64 = 0;
        let mut k: usize = 0;
        while k < layers.len()
            invariant
                k <= layers.len(),
                w < weeks,
                weeks_known(layers@, weeks as int),
                columns_fit(layers@, weeks as int),
                sum == column_total(layers@, w as int, k as int),
            decreases layers.len() - k,
        {
            assert(weeks <= layers@[k as int].weekly@.len());
            assert(i64::MIN <= column_total(layers@, w as int, k + 1) <= i64::MAX);
            sum = sum + layers[k].weekly[w];
            k += 1;
        }
        let ghost before = totals@;
        totals.push(sum);
        assert(totals@.drop_last() =~= before);
        if sum > scale {
            scale = sum;
        }
        w += 1;
    }
    (totals, scale)
}

/// The count a full bar of the activity chart stands for: the largest of
/// `values`, and at least 1.
pub fn distribution_scale(values: &Vec<i64>) -> (res: i64)
    ensures
        res == column_scale(values@),
{
    let mut scale: i64 = 1;
    let mut i: usize = 0;
    while i < values.len()
        invariant
            i <= values.len(),
            scale == column_scale(values@.take(i as int)),
        decreases values.len() - i,
    {
        assert(values@.take(i + 1 as int).drop_last() =~= values@.take(i as int));
        if values[i] > scale {
            scale = values[i];
        }
        i += 1;
    }
    assert(values@.take(i as int) =~= values@);
    scale
}

/// The positions of the first `n` layers with prompts in week `w`.
pub open spec fn active_layers(layers: Seq<TrendLayer>, w: int, n: int) -> Seq<usize>
    decreases n,
{
    if n <= 0 {
        Seq::empty()
    } else {
        let prev = active_layers(layers, w, n - 1);
        if layers[n - 1].weekly@[w] > 0 {
            prev.push((n - 1) as usize)
        } else {
            prev
        }
    }
}

/// At most the first three of `s`.
pub open spec fn first_three<T>(s: Seq<T>) -> Seq<T> {
    if s.len() <= 3 {
        s
    } else {
        s.take(3)
    }
}

/// The layers a week's tooltip breaks its prompts down into: the first
/// three with prompts that week, as positions in `layers`.
pub fn week_breakdown(layers: &Vec<TrendLayer>, w: usize) -> (res: Vec<usize>)
    requires
        forall|i: int| 0 <= i < layers@.len() ==> w < (#[trigger] layers@[i]).weekly@.len(),
    ensures
        res@ == first_three(active_layers(layers@, w as int, layers@.len() as int)),
{
    let mut out: Vec<usize> = Vec::new();
    let mut i: usize = 0;
    while i < layers.len()
        invariant
            i <= layers.len(),
            forall|k: int| 0 <= k < layers@.len() ==> w < (#[trigger] layers@[k]).weekly@.len(),
            out@ == first_three(active_layers(layers@, w as int, i as int)),
        decreases layers.len() - i,
    {
        let ghost prev = active_layers(layers@, w as int, i as int);
        if layers[i].weekly[w] > 0 {
            if out.len() < 3 {
                out.push(i);
            }
            proof {
                let next = prev.push(i as usize);
                if prev.len() < 3 {
                    assert(out@ =~= first_three(next));
                } else {
                    assert(next.take(3) =~= prev.take(3));
                }
            }
        }
        i += 1;
    }
    out
}

/// Day counts of the activity heatmap: `(counts, scale)` after the first
/// `k` entries of `daily`. Each entry sets the count of its day when the
/// day is one of the `days` days from `start` on; the scale is the largest
/// count set, and at least 1.
pub open spec fn heat_fill(daily: Seq<(CalendarDate, i64)>, start: int, days: int, k: int) -> (
    Seq<i64>,
    i64,
)
    decreases k,
{
    if k <= 0 {
        (Seq::new(days as nat, |i: int| 0i64), 1i64)
    } else {
        let (cells, scale) = heat_fill(daily, start, days, k - 1);
        let ix = daily[k - 1].0.day_number - start;
        let n = daily[k - 1].1;
        if 0 <= ix < days {
            (cells.update(ix, n), if n > scale {
                n
            } else {
                scale
            })
        } else {
            (cells, scale)
        }
    }
}

proof fn lemma_heat_fill_len(daily: Seq<(CalendarDate, i64)>, start: int, days: int, k: int)
    requires
        days >= 0,
    ensures
        heat_fill(daily, start, days, k).0.len() == days,
    decreases k,
{
    if k > 0 {
        lemma_heat_fill_len(daily, start, days, k - 1);
    }
}

/// The cells of the activity heatmap: the prompts of each of the `days`
/// days from `start` on, taken from the daily counts the index reports (in
/// ascending order of day; a day listed twice keeps its last count), and
/// the count the darkest shade stands for.
pub fn heatmap_window(daily: &Vec<(CalendarDate, i64)>, start: CalendarDate, days: usize) -> (res:
    (Vec<i64>, i64))
    ensures
        (res.0@, res.1) == heat_fill(
            daily@,
            start.day_number as int,
            days as int,
            daily@.len() as int,
        ),
{
    let mut cells: Vec<i64> = Vec::new();
    let mut i: usize = 0;
    while i < days
        invariant
            i <= days,
            cells@ == Seq::new(i as nat, |j: int| 0i64),
        decreases days - i,
    {
        cells.push(0);
        assert(cells@ =~= Seq::new((i + 1) as nat, |j: int| 0i64));
        i += 1;
    }
    let mut scale: i64 = 1;
    let mut k: usize = 0;
    while k < daily.len()
        invariant
            k <= daily.len(),
            cells@.len() == days,
            (cells@, scale) == heat_fill(daily@, start.day_number as int, days as int, k as int),
        decreases daily.len() - k,
    {
        proof {
            lemma_heat_fill_len(daily@, start.day_number as int, days as int, k as int);
        }
        let (day, n) = daily[k];
        let ix = day.day_number as i64 - start.day_number as i64;
        if 0 <= ix && (ix as u64) < (days as u64) {
            cells.set(ix as usize, n);
            if n > scale {
                scale = n;
            }
        }
        k += 1;
    }
    (cells, scale)
}

} // verus!

verus! {

/// The month (1 to 12) of the day `days` days after `year-month-day`, as
/// chrono counts days; `None` when chrono cannot represent either day.
pub uninterp spec fn chrono_month_after(year: i32, month: u32, day: u32, days: i64) -> Option<u32>;

/// Calls `NaiveDate::from_ymd_opt`, `TimeDelta::try_days`,
/// `NaiveDate::checked_add_signed` and `Datelike::month`. The contract
/// names the result and states that a month is numbered 1 to 12.
#[verifier::external_body]
fn month_after_days(date: CalendarDate, days: i64) -> (res: Option<u32>)
    ensures
        res == chrono_month_after(date.year, date.month, date.day, days),
        res matches Some(m) ==> 1 <= m <= 12,
{
    let start = chrono::NaiveDate::from_ymd_opt(date.year, date.month, date.day)?;
    let delta = chrono::TimeDelta::try_days(days)?;
    Some(chrono::Datelike::month(&start.checked_add_signed(delta)?))
}

/// The tick of week column `c` of the trend chart, which starts `7 * c`
/// days after `start`: its month, when that differs from the month of the
/// week before. A week chrono cannot date gets no tick.
pub open spec fn month_tick(start: CalendarDate, c: int) -> Option<u32> {
    match (
        chrono_month_after(start.year, start.month, start.day, (7 * c) as i64),
        chrono_month_after(start.year, start.month, start.day, (7 * c - 7) as i64),
    ) {
        (Some(m), Some(p)) => if m != p {
            Some(m)
        } else {
            None
        },
        _ => None,
    }
}

/// The month ticks of the first `n` week columns, as (column, month).
pub open spec fn month_ticks_upto(start: CalendarDate, n: int) -> Seq<(usize, u32)>
    decreases n,
{
    if n <= 0 {
        Seq::empty()
    } else {
        let prev = month_ticks_upto(start, n - 1);
        match month_tick(start, n - 1) {
            Some(m) => prev.push(((n - 1) as usize, m)),
            None => prev,
        }
    }
}

/// The month labels over the columns of the trend chart: a column whose
/// week falls in another month than the week before is labelled with
/// that month.
pub fn month_ticks(start: CalendarDate, weeks: usize) -> (res: Vec<(usize, u32)>)
    requires
        weeks * 7 <= i64::MAX,
    ensures
        res@ == month_ticks_upto(start, weeks as int),
        forall|i: int| 0 <= i < res@.len() ==> 1 <= (#[trigger] res@[i]).1 <= 12,
{
    let mut out: Vec<(usize, u32)> = Vec::new();
    let mut c: usize = 0;
    while c < weeks
        invariant
            c <= weeks,
            weeks * 7 <= i64::MAX,
            out@ == month_ticks_upto(start, c as int),
            forall|i: int| 0 <= i < out@.len() ==> 1 <= (#[trigger] out@[i]).1 <= 12,
        decreases weeks - c,
    {
        let offset = (c as i64) * 7;
        let here = month_after_days(start, offset);
        let before = month_after_days(start, offset - 7);
        match (here, before) {
            (Some(m), Some(p)) => {
                if m != p {
                    out.push((c, m));
                }
            },
            _ => {},
        }
        c += 1;
    }
    out
}

} // verus!

verus! {

proof fn lemma_leader_in_is_most(layers: Seq<TrendLayer>, w: int, n: int)
    requires
        0 <= n <= layers.len(),
        forall|j: int| 0 <= j < n && !(#[trigger] layers[j]).other ==> 0 <= w < layers[j].weekly@.len(),
    ensures
        leader_in(layers, w, n) matches Some(i) ==> {
            &&& 0 <= i < n
            &&& !layers[i].other
            &&& layers[i].weekly@[w] > 0
            &&& forall|j: int|
                0 <= j < n && !(#[trigger] layers[j]).other ==> layers[j].weekly@[w]
                    <= layers[i].weekly@[w]
            &&& forall|j: int|
                i < j < n && !(#[trigger] layers[j]).other ==> layers[j].weekly@[w]
                    < layers[i].weekly@[w]
        },
        leader_in(layers, w, n) is None ==> forall|j: int|
            0 <= j < n && !(#[trigger] layers[j]).other ==> layers[j].weekly@[w] <= 0,
    decreases n,
{
    if n > 0 {
        lemma_leader_in_is_most(layers, w, n - 1);
    }
}

/// The layer the trend caption names leads: it is an agent of its own (not
/// the merged rest) and has the most prompts this week, or, when no agent
/// has prompts this week, the most last week; among agents with as many
/// prompts it is the last. No agent is named when none has prompts in
/// either week.
pub proof fn law_trend_leader_has_most_prompts(layers: Seq<TrendLayer>, weeks: int)
    requires
        weeks >= 2,
        forall|j: int|
            0 <= j < layers.len() && !(#[trigger] layers[j]).other ==> weeks <= layers[j].weekly@.len(),
    ensures
        ({
            let this_week = weeks - 1;
            let last_week = weeks - 2;
            let active = exists|j: int|
                0 <= j < layers.len() && !(#[trigger] layers[j]).other && layers[j].weekly@[this_week]
                    > 0;
            let w = if active {
                this_week
            } else {
                last_week
            };
            &&& trend_leader(layers, weeks) matches Some(i) ==> {
                &&& 0 <= i < layers.len()
                &&& !layers[i].other
                &&& layers[i].weekly@[w] > 0
                &&& forall|j: int|
                    0 <= j < layers.len() && !(#[trigger] layers[j]).other ==> layers[j].weekly@[w]
                        <= layers[i].weekly@[w]
                &&& forall|j: int|
                    i < j < layers.len() && !(#[trigger] layers[j]).other ==> layers[j].weekly@[w]
                        < layers[i].weekly@[w]
            }
            &&& trend_leader(layers, weeks) is None ==> forall|j: int|
                0 <= j < layers.len() && !(#[trigger] layers[j]).other ==> layers[j].weekly@[this_week]
                    <= 0 && layers[j].weekly@[last_week] <= 0
        }),
{
    let n = layers.len() as int;
    lemma_leader_in_is_most(layers, weeks - 1, n);
    lemma_leader_in_is_most(layers, weeks - 2, n);
}

} // verus!
