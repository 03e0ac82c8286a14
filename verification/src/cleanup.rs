//! Cleaning up old sessions: the filter options and their summary, the
//! choices of the filter panel, and how the list presents sizes and dates.
use vstd::prelude::*;
use vstd::string::StrSliceExecFns;
use crate::model::{AgentId, CleanupCandidate, SessionMeta, UnavailableSession};
use crate::query::{lowercase, to_lowercase};
use crate::text::{seq_contains, spec_trim, text_contains, trim_text};

verus! {

/// The order of the cleanup list.
#[derive(Clone, Copy, Debug, PartialEq, Eq, Structural)]
pub enum CleanupSort {
    Created,
    Updated,
    Size,
}

/// A date of a session.
#[derive(Clone, Copy, Debug, PartialEq, Eq, Structural)]
pub enum TimeField {
    Created,
    Updated,
}

/// Which sessions the cleanup list offers, and in which order.
#[derive(Clone, Debug)]
pub struct CleanupOptions {
    /// Only sessions created at least this many days ago (0: any).
    pub created_days: i64,
    /// Only sessions last updated at least this many days ago (0: any).
    pub updated_days: i64,
    /// Only these agents (none: all), in ascending order.
    pub agents: Vec<AgentId>,
    /// Only these project paths (none: all), in ascending order.
    pub projects: Vec<String>,
    pub exclude_starred: bool,
    pub exclude_pinned: bool,
    /// Hide sessions that cannot be cleaned up.
    pub only_cleanable: bool,
    pub sort: CleanupSort,
    pub ascending: Option<bool>,
}

/// Some option narrows the list.
pub open spec fn spec_has_filters(o: CleanupOptions) -> bool {
    ||| o.created_days > 0
    ||| o.updated_days > 0
    ||| o.agents@.len() > 0
    ||| o.projects@.len() > 0
    ||| o.exclude_starred
    ||| o.exclude_pinned
    ||| o.only_cleanable
}

/// Whether some option narrows the list.
pub fn has_filters(options: &CleanupOptions) -> (res: bool)
    ensures
        res == spec_has_filters(*options),
{
    options.created_days > 0 || options.updated_days > 0 || options.agents.len() > 0
        || options.projects.len() > 0 || options.exclude_starred || options.exclude_pinned
        || options.only_cleanable
}

impl CleanupOptions {
    /// Options that narrow nothing, keeping the order.
    pub fn clear_filters(&mut self)
        ensures
            !spec_has_filters(*final(self)),
            final(self).created_days == 0,
            final(self).updated_days == 0,
            final(self).agents@.len() == 0,
            final(self).projects@.len() == 0,
            !final(self).exclude_starred,
            !final(self).exclude_pinned,
            !final(self).only_cleanable,
            final(self).sort == old(self).sort,
            final(self).ascending == old(self).ascending,
    {
        self.created_days = 0;
        self.updated_days = 0;
        self.agents = Vec::new();
        self.projects = Vec::new();
        self.exclude_starred = false;
        self.exclude_pinned = false;
        self.only_cleanable = false;
    }
}

/// The heading of a sort order (a message key of the interface).
pub fn sort_label(s: CleanupSort) -> (res: &'static str)
    ensures
        res@ == match s {
            CleanupSort::Created => "Date created"@,
            CleanupSort::Updated => "Date updated"@,
            CleanupSort::Size => "File size"@,
        },
{
    match s {
        CleanupSort::Created => "Date created",
        CleanupSort::Updated => "Date updated",
        CleanupSort::Size => "File size",
    }
}

/// The heading of a date (a message key of the interface).
pub fn time_label(field: TimeField) -> (res: &'static str)
    ensures
        res@ == match field {
            TimeField::Created => "Date created"@,
            TimeField::Updated => "Date updated"@,
        },
{
    match field {
        TimeField::Created => "Date created",
        TimeField::Updated => "Date updated",
    }
}

/// The label of an age filter (a message key of the interface); an age not
/// offered reads as any time.
pub fn age_label(days: i64) -> (res: &'static str)
    ensures
        res@ == (if days == 30 {
            "30 days ago"@
        } else if days == 90 {
            "90 days ago"@
        } else if days == 180 {
            "180 days ago"@
        } else if days == 365 {
            "1 year ago"@
        } else {
            "Any time"@
        }),
{
    if days == 30 {
        "30 days ago"
    } else if days == 90 {
        "90 days ago"
    } else if days == 180 {
        "180 days ago"
    } else if days == 365 {
        "1 year ago"
    } else {
        "Any time"
    }
}

/// The date the list shows: the one it is sorted by, or for a size order
/// the creation date when only that is filtered, else the update date.
pub open spec fn spec_date_field(o: CleanupOptions) -> TimeField {
    match o.sort {
        CleanupSort::Created => TimeField::Created,
        CleanupSort::Updated => TimeField::Updated,
        CleanupSort::Size => if o.created_days > 0 && o.updated_days == 0 {
            TimeField::Created
        } else {
            TimeField::Updated
        },
    }
}

pub fn date_field(options: &CleanupOptions) -> (res: TimeField)
    ensures
        res == spec_date_field(*options),
{
    match options.sort {
        CleanupSort::Created => TimeField::Created,
        CleanupSort::Updated => TimeField::Updated,
        CleanupSort::Size => if options.created_days > 0 && options.updated_days == 0 {
            TimeField::Created
        } else {
            TimeField::Updated
        },
    }
}

/// How a set of chosen sources reads in the summary.
#[derive(Clone, Debug)]
pub enum ChosenSources<T> {
    All,
    One(T),
    Several(usize),
}

/// The summary line of the filters.
#[derive(Clone, Debug)]
pub struct FilterSummary {
    /// The date filters in effect, creation first; none reads as any time.
    pub dates: Vec<(TimeField, i64)>,
    pub agents: ChosenSources<AgentId>,
    pub exclude_unavailable: bool,
    pub exclude_starred: bool,
    pub exclude_pinned: bool,
    /// The chosen project path when there is one; the caller shows the
    /// project's name when it knows it.
    pub projects: ChosenSources<String>,
}

pub open spec fn spec_summary_dates(o: CleanupOptions) -> Seq<(TimeField, i64)> {
    let created = if o.created_days > 0 {
        seq![(TimeField::Created, o.created_days)]
    } else {
        Seq::empty()
    };
    let updated = if o.updated_days > 0 {
        seq![(TimeField::Updated, o.updated_days)]
    } else {
        Seq::empty()
    };
    created + updated
}

/// The summary of the filters in effect.
pub fn filter_summary(options: &CleanupOptions) -> (res: FilterSummary)
    ensures
        res.dates@ == spec_summary_dates(*options),
        match res.agents {
            ChosenSources::All => options.agents@.len() == 0,
            ChosenSources::One(a) => options.agents@.len() == 1 && a == options.agents@[0],
            ChosenSources::Several(n) => options.agents@.len() > 1 && n == options.agents@.len(),
        },
        match res.projects {
            ChosenSources::All => options.projects@.len() == 0,
            ChosenSources::One(p) => options.projects@.len() == 1 && p@ == options.projects@[0]@,
            ChosenSources::Several(n) => options.projects@.len() > 1 && n
                == options.projects@.len(),
        },
        res.exclude_unavailable == options.only_cleanable,
        res.exclude_starred == options.exclude_starred,
        res.exclude_pinned == options.exclude_pinned,
{
    let mut dates: Vec<(TimeField, i64)> = Vec::new();
    if options.created_days > 0 {
        dates.push((TimeField::Created, options.created_days));
    }
    if options.updated_days > 0 {
        dates.push((TimeField::Updated, options.updated_days));
    }
    assert(dates@ =~= spec_summary_dates(*options));
    let agents = if options.agents.len() == 0 {
        ChosenSources::All
    } else if options.agents.len() == 1 {
        ChosenSources::One(options.agents[0])
    } else {
        ChosenSources::Several(options.agents.len())
    };
    let projects = if options.projects.len() == 0 {
        ChosenSources::All
    } else if options.projects.len() == 1 {
        ChosenSources::One(options.projects[0].clone())
    } else {
        ChosenSources::Several(options.projects.len())
    };
    FilterSummary {
        dates,
        agents,
        exclude_unavailable: options.only_cleanable,
        exclude_starred: options.exclude_starred,
        exclude_pinned: options.exclude_pinned,
        projects,
    }
}

/// How a byte count is written: no bytes, in gigabytes with two decimals
/// from one gibibyte on, else in the nearest smaller unit.
#[derive(Clone, Copy, Debug, PartialEq, Eq, Structural)]
pub enum ByteSize {
    Zero,
    Gigabytes(u64),
    Smaller(u64),
}

/// How `n` bytes are written.
pub fn bytes(n: u64) -> (res: ByteSize)
    ensures
        res == (if n == 0 {
            ByteSize::Zero
        } else if n >= 1024 * 1024 * 1024 {
            ByteSize::Gigabytes(n)
        } else {
            ByteSize::Smaller(n)
        }),
{
    if n == 0 {
        ByteSize::Zero
    } else if n >= 1024 * 1024 * 1024 {
        ByteSize::Gigabytes(n)
    } else {
        ByteSize::Smaller(n)
    }
}

/// Colors of the interface theme.
#[derive(Clone, Copy, Debug, PartialEq, Eq, Structural)]
pub enum ThemeColor {
    Primary,
    Foreground,
    MutedForeground,
    ListActive,
    ListHover,
    Transparent,
}

/// How a choice of the filter panel looks.
#[derive(Clone, Copy, Debug, PartialEq, Eq, Structural)]
pub struct ChoiceStyle {
    pub foreground: ThemeColor,
    pub hover: ThemeColor,
    pub active: ThemeColor,
    pub selected: bool,
}

/// The look of a choice: a chosen one is drawn in the primary color.
pub fn choice_button(selected: bool) -> (res: ChoiceStyle)
    ensures
        res.foreground == (if selected {
            ThemeColor::Primary
        } else {
            ThemeColor::Foreground
        }),
        res.hover == (if selected {
            ThemeColor::ListActive
        } else {
            ThemeColor::ListHover
        }),
        res.active == ThemeColor::ListActive,
        res.selected == selected,
{
    ChoiceStyle {
        foreground: if selected {
            ThemeColor::Primary
        } else {
            ThemeColor::Foreground
        },
        hover: if selected {
            ThemeColor::ListActive
        } else {
            ThemeColor::ListHover
        },
        active: ThemeColor::ListActive,
        selected,
    }
}

/// Display cells a choice's label is clipped to.
pub const OPTION_LABEL_CELLS: usize = 24;

/// The label of a choice: clipped to a width, the whole label in its
/// tooltip, and a check mark that shows only when chosen.
#[derive(Clone, Debug)]
pub struct OptionLabel {
    pub label: String,
    pub max_cells: usize,
    pub tooltip: String,
    pub check: ThemeColor,
    /// Room is kept before the label for the agent's icon.
    pub leading_icon: bool,
}

pub fn option_label(label: &str, selected: bool) -> (res: OptionLabel)
    ensures
        res.label@ == label@,
        res.tooltip@ == label@,
        res.max_cells == OPTION_LABEL_CELLS,
        res.check == (if selected {
            ThemeColor::Primary
        } else {
            ThemeColor::Transparent
        }),
        !res.leading_icon,
{
    OptionLabel {
        label: label.to_owned(),
        max_cells: OPTION_LABEL_CELLS,
        tooltip: label.to_owned(),
        check: if selected {
            ThemeColor::Primary
        } else {
            ThemeColor::Transparent
        },
        leading_icon: false,
    }
}

/// The label of an agent's choice: an option label with its icon before it.
pub fn agent_label(label: &str, selected: bool) -> (res: OptionLabel)
    ensures
        res.label@ == label@,
        res.tooltip@ == label@,
        res.max_cells == OPTION_LABEL_CELLS,
        res.check == (if selected {
            ThemeColor::Primary
        } else {
            ThemeColor::Transparent
        }),
        res.leading_icon,
{
    let mut l = option_label(label, selected);
    l.leading_icon = true;
    l
}

/// The heading of a group of choices, with the number chosen when some are.
#[derive(Clone, Copy, Debug, PartialEq, Eq)]
pub struct SectionHeading {
    pub title: &'static str,
    pub chosen: Option<usize>,
}

pub fn section(title: &'static str, selected: usize) -> (res: SectionHeading)
    ensures
        res.title == title,
        res.chosen == (if selected > 0 {
            Some(selected)
        } else {
            None
        }),
{
    SectionHeading {
        title,
        chosen: if selected > 0 {
            Some(selected)
        } else {
            None
        },
    }
}

/// How many exclusions are chosen.
pub fn exclusions_chosen(options: &CleanupOptions) -> (res: usize)
    ensures
        res == (if options.exclude_starred { 1int } else { 0 }) + (if options.exclude_pinned {
            1int
        } else {
            0
        }) + (if options.only_cleanable { 1int } else { 0 }),
{
    let mut n: usize = 0;
    if options.exclude_starred {
        n += 1;
    }
    if options.exclude_pinned {
        n += 1;
    }
    if options.only_cleanable {
        n += 1;
    }
    n
}

} // verus!

verus! {

/// `a` sorts before `b` as `String`s compare: by their characters' code
/// points, which UTF-8 bytes compare alike, a prefix first.
pub open spec fn text_less(a: Seq<char>, b: Seq<char>) -> bool
    decreases a.len(),
{
    if a.len() == 0 {
        b.len() > 0
    } else if b.len() == 0 {
        false
    } else if a[0] < b[0] {
        true
    } else if a[0] > b[0] {
        false
    } else {
        text_less(a.drop_first(), b.drop_first())
    }
}

/// Whether `a` sorts before `b`.
pub fn text_lt(a: &str, b: &str) -> (res: bool)
    ensures
        res == text_less(a@, b@),
{
    let x = crate::text::chars_of(a);
    let y = crate::text::chars_of(b);
    let mut i: usize = 0;
    assert(x@.subrange(0, x@.len() as int) =~= x@);
    assert(y@.subrange(0, y@.len() as int) =~= y@);
    while i < x.len() && i < y.len()
        invariant
            x@ == a@,
            y@ == b@,
            i <= x.len(),
            i <= y.len(),
            text_less(x@, y@) == text_less(x@.subrange(i as int, x@.len() as int), y@.subrange(
                i as int,
                y@.len() as int,
            )),
        decreases x.len() - i,
    {
        let ghost xs = x@.subrange(i as int, x@.len() as int);
        let ghost ys = y@.subrange(i as int, y@.len() as int);
        assert(xs[0] == x@[i as int]);
        assert(ys[0] == y@[i as int]);
        if x[i] < y[i] {
            assert(xs.len() > 0 && ys.len() > 0 && xs[0] < ys[0]);
            assert(text_less(xs, ys));
            return true;
        }
        if x[i] > y[i] {
            assert(xs.len() > 0 && ys.len() > 0 && xs[0] > ys[0]);
            assert(!text_less(xs, ys));
            return false;
        }
        assert(xs.drop_first() =~= x@.subrange(i + 1, x@.len() as int));
        assert(ys.drop_first() =~= y@.subrange(i + 1, y@.len() as int));
        i += 1;
    }
    i == x.len() && i < y.len()
}

} // verus!

verus! {

/// Everything the cleanup engine found: sessions that can be cleaned up
/// and sessions that cannot, with the reason.
#[derive(Clone, Debug)]
pub struct CleanupInventory {
    pub candidates: Vec<CleanupCandidate>,
    pub unavailable: Vec<UnavailableSession>,
}

/// A root session of the inventory with the time it sorts by.
pub type DatedRoot = (SessionMeta, i64);

/// `x` sorts before `y`: more recently updated first, then by key.
pub open spec fn root_before(x: DatedRoot, y: DatedRoot) -> bool {
    x.1 > y.1 || (x.1 == y.1 && text_less(x.0.key@, y.0.key@))
}

/// Where `x` goes among the `sorted` roots, from position `i` on: before
/// the first root it sorts before, after every root it ties with.
pub open spec fn insert_pos_from(sorted: Seq<DatedRoot>, x: DatedRoot, i: int) -> int
    decreases sorted.len() - i,
{
    if i < 0 || i >= sorted.len() {
        sorted.len() as int
    } else if root_before(x, sorted[i]) {
        i
    } else {
        insert_pos_from(sorted, x, i + 1)
    }
}

/// `roots` sorted, keeping the order of roots that tie (a stable sort).
pub open spec fn sorted_roots(roots: Seq<DatedRoot>) -> Seq<DatedRoot>
    decreases roots.len(),
{
    if roots.len() == 0 {
        roots
    } else {
        let prev = sorted_roots(roots.drop_last());
        prev.insert(insert_pos_from(prev, roots.last(), 0), roots.last())
    }
}

/// The roots of the whole inventory, cleanable ones first.
pub open spec fn inventory_roots(inv: CleanupInventory) -> Seq<DatedRoot> {
    inv.candidates@.map_values(|c: CleanupCandidate| (c.root, c.updated_at))
        + inv.unavailable@.map_values(|u: UnavailableSession| (u.session, u.updated_at))
}

/// The agents offered: those of the inventory and those chosen.
pub open spec fn agent_choices(roots: Seq<DatedRoot>, chosen: Seq<AgentId>) -> Set<AgentId> {
    chosen.to_set() + roots.map_values(|r: DatedRoot| r.0.agent).to_set()
}

/// Some entry of `list` has path `path`.
pub open spec fn has_path(list: Seq<(Seq<char>, Seq<char>)>, path: Seq<char>) -> bool {
    exists|i: int| 0 <= i < list.len() && #[trigger] list[i].0 == path
}

/// The projects of `roots` in their order, each path once, with the name
/// its first root gives it.
pub open spec fn root_projects(roots: Seq<DatedRoot>) -> Seq<(Seq<char>, Seq<char>)>
    decreases roots.len(),
{
    if roots.len() == 0 {
        Seq::empty()
    } else {
        let prev = root_projects(roots.drop_last());
        let s = roots.last().0;
        if has_path(prev, s.project_path@) {
            prev
        } else {
            prev.push((s.project_path@, s.project_name@))
        }
    }
}

/// The last component of a path, as `std::path::Path::file_name` gives it
/// on the platform the library is built for (which decides the path
/// separators).
pub uninterp spec fn std_path_file_name(path: Seq<char>) -> Option<Seq<char>>;

/// Calls `Path::file_name` on `path` (and `OsStr::to_str`, which always
/// succeeds on a path made from a `&str`); the contract names the result.
#[verifier::external_body]
fn path_file_name(path: &str) -> (res: Option<String>)
    ensures
        match res {
            Some(n) => std_path_file_name(path@) == Some(n@),
            None => std_path_file_name(path@) is None,
        },
{
    std::path::Path::new(path).file_name().and_then(|n| n.to_str()).map(|n| n.to_string())
}

/// `list` followed by the chosen projects it lacks, named by the last
/// component of their path (or the whole path when it has none).
pub open spec fn with_chosen_projects(list: Seq<(Seq<char>, Seq<char>)>, chosen: Seq<String>) -> Seq<
    (Seq<char>, Seq<char>),
>
    decreases chosen.len(),
{
    if chosen.len() == 0 {
        list
    } else {
        let prev = with_chosen_projects(list, chosen.drop_last());
        let path = chosen.last()@;
        if has_path(prev, path) {
            prev
        } else {
            prev.push(
                (
                    path,
                    match std_path_file_name(path) {
                        Some(n) => n,
                        None => path,
                    },
                ),
            )
        }
    }
}

/// The views of a list of (path, name) pairs.
pub open spec fn pair_views(list: Seq<(String, String)>) -> Seq<(Seq<char>, Seq<char>)> {
    list.map_values(|p: (String, String)| (p.0@, p.1@))
}

fn root_is_before(x: &DatedRoot, y: &DatedRoot) -> (res: bool)
    ensures
        res == root_before(*x, *y),
{
    x.1 > y.1 || (x.1 == y.1 && text_lt(x.0.key.as_str(), y.0.key.as_str()))
}

fn insert_position(sorted: &Vec<DatedRoot>, x: &DatedRoot) -> (res: usize)
    ensures
        res as int == insert_pos_from(sorted@, *x, 0),
{
    let mut i: usize = 0;
    while i < sorted.len()
        invariant
            i <= sorted.len(),
            insert_pos_from(sorted@, *x, 0) == insert_pos_from(sorted@, *x, i as int),
        decreases sorted.len() - i,
    {
        if root_is_before(x, &sorted[i]) {
            return i;
        }
        i += 1;
    }
    i
}

proof fn lemma_insert_pos_bounds(sorted: Seq<DatedRoot>, x: DatedRoot, i: int)
    requires
        0 <= i,
    ensures
        0 <= insert_pos_from(sorted, x, i) <= sorted.len(),
    decreases sorted.len() - i,
{
    if i < sorted.len() && !root_before(x, sorted[i]) {
        lemma_insert_pos_bounds(sorted, x, i + 1);
    }
}

fn sort_roots(roots: Vec<DatedRoot>) -> (res: Vec<DatedRoot>)
    ensures
        res@ == sorted_roots(roots@),
{
    let ghost all = roots@;
    let n = roots.len();
    let mut rest = roots;
    let mut sorted: Vec<DatedRoot> = Vec::new();
    let mut i: usize = 0;
    while rest.len() > 0
        invariant
            i <= n,
            all.len() == n,
            rest@ == all.subrange(i as int, n as int),
            sorted@ == sorted_roots(all.take(i as int)),
        decreases rest.len(),
    {
        let x = rest.remove(0);
        proof {
            assert(x == all[i as int]);
            assert(rest@ =~= all.subrange(i + 1, n as int));
            let t = all.take(i + 1 as int);
            assert(t.drop_last() =~= all.take(i as int));
            assert(t.last() == all[i as int]);
            lemma_insert_pos_bounds(sorted@, x, 0);
        }
        let pos = insert_position(&sorted, &x);
        sorted.insert(pos, x);
        i += 1;
    }
    assert(all.take(n as int) =~= all);
    sorted
}

} // verus!

verus! {

/// `v` is in strictly increasing order.
pub open spec fn strictly_increasing(v: Seq<AgentId>) -> bool {
    forall|i: int, j: int| 0 <= i < j < v.len() ==> v[i] < v[j]
}

fn insert_agent(v: &mut Vec<AgentId>, a: AgentId)
    requires
        strictly_increasing(old(v)@),
    ensures
        strictly_increasing(final(v)@),
        forall|x: AgentId| #[trigger] final(v)@.contains(x) == (old(v)@.contains(x) || x == a),
{
    let mut i: usize = 0;
    while i < v.len() && v[i] < a
        invariant
            i <= v.len(),
            forall|k: int| 0 <= k < i ==> v@[k] < a,
        decreases v.len() - i,
    {
        i += 1;
    }
    if i < v.len() && v[i] == a {
        return;
    }
    let ghost before = v@;
    v.insert(i, a);
    proof {
        assert forall|x: AgentId| #[trigger] v@.contains(x) == (before.contains(x) || x == a) by {
            if v@.contains(x) {
                let k = choose|k: int| 0 <= k < v@.len() && v@[k] == x;
                if k < i {
                    assert(v@[k] == before[k]);
                } else if k > i {
                    assert(v@[k] == before[k - 1]);
                }
            }
            if before.contains(x) {
                let k = choose|k: int| 0 <= k < before.len() && before[k] == x;
                if k < i {
                    assert(v@[k] == before[k]);
                } else {
                    assert(v@[k + 1] == before[k]);
                }
            }
            if x == a {
                assert(v@[i as int] == a);
            }
        }
        assert forall|p: int, q: int| 0 <= p < q < v@.len() implies v@[p] < v@[q] by {
            if q < i {
                assert(v@[p] == before[p] && v@[q] == before[q]);
            } else if q == i {
                assert(v@[p] == before[p]);
            } else if p < i {
                assert(v@[p] == before[p] && v@[q] == before[q - 1]);
                assert(before[q - 1] >= a || q - 1 >= i);
            } else if p == i {
                assert(v@[q] == before[q - 1]);
                assert(before[i as int] != a);
            } else {
                assert(v@[p] == before[p - 1] && v@[q] == before[q - 1]);
            }
        }
    }
}

fn has_path_in(list: &Vec<(String, String)>, path: &String) -> (res: bool)
    ensures
        res == has_path(pair_views(list@), path@),
{
    let mut i: usize = 0;
    while i < list.len()
        invariant
            i <= list.len(),
            forall|k: int| 0 <= k < i ==> #[trigger] list@[k].0@ != path@,
        decreases list.len() - i,
    {
        if list[i].0 == *path {
            assert(pair_views(list@)[i as int].0 == path@);
            return true;
        }
        i += 1;
    }
    proof {
        if has_path(pair_views(list@), path@) {
            let k = choose|k: int|
                0 <= k < pair_views(list@).len() && #[trigger] pair_views(list@)[k].0 == path@;
            assert(list@[k].0@ != path@);
        }
    }
    false
}

fn inventory_root_list(inventory: &CleanupInventory) -> (res: Vec<DatedRoot>)
    ensures
        res@ == inventory_roots(*inventory),
{
    let mut roots: Vec<DatedRoot> = Vec::new();
    let mut i: usize = 0;
    while i < inventory.candidates.len()
        invariant
            i <= inventory.candidates.len(),
            roots@ == inventory.candidates@.take(i as int).map_values(
                |c: CleanupCandidate| (c.root, c.updated_at),
            ),
        decreases inventory.candidates.len() - i,
    {
        let c = &inventory.candidates[i];
        roots.push((c.root.duplicate(), c.updated_at));
        proof {
            assert(inventory.candidates@.take(i + 1 as int) =~= inventory.candidates@.take(
                i as int,
            ).push(inventory.candidates@[i as int]));
            assert(roots@ =~= inventory.candidates@.take(i + 1 as int).map_values(
                |c: CleanupCandidate| (c.root, c.updated_at),
            ));
        }
        i += 1;
    }
    assert(inventory.candidates@.take(i as int) =~= inventory.candidates@);
    let ghost first = roots@;
    let mut j: usize = 0;
    while j < inventory.unavailable.len()
        invariant
            j <= inventory.unavailable.len(),
            roots@ == first + inventory.unavailable@.take(j as int).map_values(
                |u: UnavailableSession| (u.session, u.updated_at),
            ),
        decreases inventory.unavailable.len() - j,
    {
        let u = &inventory.unavailable[j];
        roots.push((u.session.duplicate(), u.updated_at));
        proof {
            assert(inventory.unavailable@.take(j + 1 as int) =~= inventory.unavailable@.take(
                j as int,
            ).push(inventory.unavailable@[j as int]));
            assert(roots@ =~= first + inventory.unavailable@.take(j + 1 as int).map_values(
                |u: UnavailableSession| (u.session, u.updated_at),
            ));
        }
        j += 1;
    }
    assert(inventory.unavailable@.take(j as int) =~= inventory.unavailable@);
    roots
}

/// The sources the filter panel offers: every agent and project of the
/// whole inventory (archived and unavailable sessions included), agents
/// in ascending order together with the chosen ones, and projects in the
/// order of their most recently updated session, followed by chosen
/// projects the inventory no longer has, so that they can still be
/// removed from the choice.
pub fn source_choices(inventory: &CleanupInventory, options: &CleanupOptions) -> (res: (
    Vec<AgentId>,
    Vec<(String, String)>,
))
    ensures
        strictly_increasing(res.0@),
        res.0@.to_set() == agent_choices(inventory_roots(*inventory), options.agents@),
        pair_views(res.1@) == with_chosen_projects(
            root_projects(sorted_roots(inventory_roots(*inventory))),
            options.projects@,
        ),
{
    let roots = sort_roots(inventory_root_list(inventory));
    let ghost rs = roots@;
    let mut agents: Vec<AgentId> = Vec::new();
    let mut i: usize = 0;
    while i < options.agents.len()
        invariant
            i <= options.agents.len(),
            strictly_increasing(agents@),
            forall|x: AgentId| #[trigger] agents@.contains(x) == options.agents@.take(i as int).contains(x),
        decreases options.agents.len() - i,
    {
        proof {
            let t = options.agents@.take(i + 1 as int);
            assert forall|x: AgentId| #[trigger] t.contains(x) == (options.agents@.take(i as int).contains(x) || x == options.agents@[i as int]) by {
                if t.contains(x) {
                    let k = choose|k: int| 0 <= k < t.len() && t[k] == x;
                    if k < i {
                        assert(options.agents@.take(i as int)[k] == x);
                    }
                }
                if options.agents@.take(i as int).contains(x) {
                    let k = choose|k: int| 0 <= k < i && options.agents@.take(i as int)[k] == x;
                    assert(t[k] == x);
                }
                if x == options.agents@[i as int] {
                    assert(t[i as int] == x);
                }
            }
        }
        insert_agent(&mut agents, options.agents[i]);
        i += 1;
    }
    assert(options.agents@.take(i as int) =~= options.agents@);
    let mut projects: Vec<(String, String)> = Vec::new();
    let mut k: usize = 0;
    while k < roots.len()
        invariant
            k <= roots.len(),
            rs == roots@,
            strictly_increasing(agents@),
            forall|x: AgentId| #[trigger] agents@.contains(x) == (options.agents@.contains(x)
                || rs.take(k as int).map_values(|r: DatedRoot| r.0.agent).contains(x)),
            pair_views(projects@) == root_projects(rs.take(k as int)),
        decreases roots.len() - k,
    {
        let s = &roots[k].0;
        proof {
            let t = rs.take(k + 1 as int);
            assert(t.drop_last() =~= rs.take(k as int));
            assert(t.last() == rs[k as int]);
            let ta = t.map_values(|r: DatedRoot| r.0.agent);
            let pa = rs.take(k as int).map_values(|r: DatedRoot| r.0.agent);
            assert(ta =~= pa.push(s.agent));
            assert forall|x: AgentId| #[trigger] ta.contains(x) == (pa.contains(x) || x == s.agent) by {
                if ta.contains(x) {
                    let j = choose|j: int| 0 <= j < ta.len() && ta[j] == x;
                    if j < k {
                        assert(pa[j] == x);
                    }
                }
                if pa.contains(x) {
                    let j = choose|j: int| 0 <= j < pa.len() && pa[j] == x;
                    assert(ta[j] == x);
                }
                if x == s.agent {
                    assert(ta[k as int] == x);
                }
            }
        }
        insert_agent(&mut agents, s.agent);
        if !has_path_in(&projects, &s.project_path) {
            let ghost before = projects@;
            projects.push((s.project_path.clone(), s.project_name.clone()));
            assert(pair_views(projects@) =~= pair_views(before).push(
                (s.project_path@, s.project_name@),
            ));
        }
        k += 1;
    }
    assert(rs.take(k as int) =~= rs);
    let ghost listed = pair_views(projects@);
    let mut c: usize = 0;
    while c < options.projects.len()
        invariant
            c <= options.projects.len(),
            pair_views(projects@) == with_chosen_projects(listed, options.projects@.take(c as int)),
        decreases options.projects.len() - c,
    {
        let path = &options.projects[c];
        proof {
            let t = options.projects@.take(c + 1 as int);
            assert(t.drop_last() =~= options.projects@.take(c as int));
            assert(t.last() == options.projects@[c as int]);
        }
        if !has_path_in(&projects, path) {
            let name = match path_file_name(path.as_str()) {
                Some(n) => n,
                None => path.clone(),
            };
            let ghost before = projects@;
            projects.push((path.clone(), name));
            assert(pair_views(projects@) =~= pair_views(before).push(
                (path@, name@),
            ));
        }
        c += 1;
    }
    assert(options.projects@.take(c as int) =~= options.projects@);
    proof {
        let want = agent_choices(rs, options.agents@);
        assert forall|x: AgentId| agents@.to_set().contains(x) == want.contains(x) by {
            assert(agents@.to_set().contains(x) == agents@.contains(x));
        }
        assert(agents@.to_set() =~= want);
        lemma_sorted_roots_same_agents(inventory_roots(*inventory));
    }
    (agents, projects)
}

proof fn lemma_sorted_roots_same_agents(roots: Seq<DatedRoot>)
    ensures
        sorted_roots(roots).map_values(|r: DatedRoot| r.0.agent).to_set() == roots.map_values(
            |r: DatedRoot| r.0.agent,
        ).to_set(),
    decreases roots.len(),
{
    if roots.len() > 0 {
        lemma_sorted_roots_same_agents(roots.drop_last());
        let prev = sorted_roots(roots.drop_last());
        lemma_insert_pos_bounds(prev, roots.last(), 0);
        let p = insert_pos_from(prev, roots.last(), 0);
        let ins = prev.insert(p, roots.last());
        let a = ins.map_values(|r: DatedRoot| r.0.agent);
        let b = prev.map_values(|r: DatedRoot| r.0.agent);
        let c = roots.map_values(|r: DatedRoot| r.0.agent);
        let d = roots.drop_last().map_values(|r: DatedRoot| r.0.agent);
        assert(c =~= d.push(roots.last().0.agent));
        assert(a =~= b.insert(p, roots.last().0.agent));
        assert forall|x: AgentId| a.to_set().contains(x) == c.to_set().contains(x) by {
            if a.contains(x) {
                let j = choose|j: int| 0 <= j < a.len() && a[j] == x;
                if j < p {
                    assert(b[j] == x);
                    assert(b.to_set().contains(x));
                    assert(d.to_set().contains(x));
                    let m = choose|m: int| 0 <= m < d.len() && d[m] == x;
                    assert(c[m] == x);
                } else if j > p {
                    assert(b[j - 1] == x);
                    assert(b.to_set().contains(x));
                    assert(d.to_set().contains(x));
                    let m = choose|m: int| 0 <= m < d.len() && d[m] == x;
                    assert(c[m] == x);
                } else {
                    assert(c[d.len() as int] == x);
                }
            }
            if c.contains(x) {
                let j = choose|j: int| 0 <= j < c.len() && c[j] == x;
                if j < d.len() {
                    assert(d[j] == x);
                    assert(d.to_set().contains(x));
                    assert(b.to_set().contains(x));
                    let m = choose|m: int| 0 <= m < b.len() && b[m] == x;
                    if m < p {
                        assert(a[m] == x);
                    } else {
                        assert(a[m + 1] == x);
                    }
                } else {
                    assert(a[p] == x);
                }
            }
        }
        assert(a.to_set() =~= c.to_set());
    }
}

} // verus!

verus! {

proof fn lemma_text_less_transitive(a: Seq<char>, b: Seq<char>, c: Seq<char>)
    requires
        text_less(a, b),
        text_less(b, c),
    ensures
        text_less(a, c),
    decreases a.len(),
{
    if a.len() > 0 && b.len() > 0 && c.len() > 0 && a[0] == b[0] && b[0] == c[0] {
        lemma_text_less_transitive(a.drop_first(), b.drop_first(), c.drop_first());
    }
}

proof fn lemma_text_less_irreflexive(a: Seq<char>)
    ensures
        !text_less(a, a),
    decreases a.len(),
{
    if a.len() > 0 {
        lemma_text_less_irreflexive(a.drop_first());
    }
}

proof fn lemma_root_before_transitive(x: DatedRoot, y: DatedRoot, z: DatedRoot)
    requires
        root_before(x, y),
        root_before(y, z),
    ensures
        root_before(x, z),
{
    if x.1 == y.1 && y.1 == z.1 {
        lemma_text_less_transitive(x.0.key@, y.0.key@, z.0.key@);
    }
}

/// No root sorts before a root placed ahead of it.
pub open spec fn roots_in_order(s: Seq<DatedRoot>) -> bool {
    forall|i: int, j: int| 0 <= i < j < s.len() ==> !root_before(#[trigger] s[j], #[trigger] s[i])
}

proof fn lemma_insert_pos_facts(sorted: Seq<DatedRoot>, x: DatedRoot, i: int)
    requires
        0 <= i <= sorted.len(),
    ensures
        i <= insert_pos_from(sorted, x, i) <= sorted.len(),
        forall|k: int| i <= k < insert_pos_from(sorted, x, i) ==> !root_before(x, #[trigger] sorted[k]),
        insert_pos_from(sorted, x, i) < sorted.len() ==> root_before(
            x,
            sorted[insert_pos_from(sorted, x, i)],
        ),
    decreases sorted.len() - i,
{
    if i < sorted.len() && !root_before(x, sorted[i]) {
        lemma_insert_pos_facts(sorted, x, i + 1);
    }
}

/// The roots come out of the sort newest first (ties by key), and the
/// sort only reorders them.
pub proof fn law_roots_sorted_newest_first(roots: Seq<DatedRoot>)
    ensures
        roots_in_order(sorted_roots(roots)),
        sorted_roots(roots).to_multiset() == roots.to_multiset(),
    decreases roots.len(),
{
    if roots.len() > 0 {
        law_roots_sorted_newest_first(roots.drop_last());
        let prev = sorted_roots(roots.drop_last());
        let x = roots.last();
        lemma_insert_pos_facts(prev, x, 0);
        let p = insert_pos_from(prev, x, 0);
        let s = prev.insert(p, x);
        assert forall|i: int, j: int| 0 <= i < j < s.len() implies !root_before(
            #[trigger] s[j],
            #[trigger] s[i],
        ) by {
            if j < p {
                assert(s[i] == prev[i] && s[j] == prev[j]);
            } else if j == p {
                assert(s[i] == prev[i]);
                assert(s[j] == x);
            } else if i < p {
                assert(s[i] == prev[i] && s[j] == prev[j - 1]);
            } else if i == p {
                assert(s[i] == x && s[j] == prev[j - 1]);
                if root_before(prev[j - 1], x) {
                    if j - 1 == p {
                        lemma_root_before_transitive(x, prev[p], x);
                        lemma_text_less_irreflexive(x.0.key@);
                    } else {
                        lemma_root_before_transitive(prev[j - 1], x, prev[p]);
                    }
                }
            } else {
                assert(s[i] == prev[i - 1] && s[j] == prev[j - 1]);
            }
        }
        assert(roots =~= roots.drop_last().push(x));
        vstd::seq_lib::to_multiset_insert(prev, p, x);
        roots.drop_last().to_multiset_ensures();
    }
}

} // verus!

verus! {

/// A source of the filter panel is offered under the typed search `query`
/// (already in lower case): an empty query offers everything, else one of
/// its texts in lower case must contain the query.
pub open spec fn spec_source_offered(query: Seq<char>, texts: Seq<String>) -> bool {
    query.len() == 0 || exists|i: int|
        0 <= i < texts.len() && seq_contains(lowercase(#[trigger] texts[i]@), query)
}

/// The source search as typed into the filter panel: without surrounding
/// whitespace, in lower case.
pub fn source_query(typed: &str) -> (res: String)
    ensures
        res@ == lowercase(spec_trim(typed@)),
{
    to_lowercase(trim_text(typed))
}

/// Whether a source with `texts` (an agent's name, or a project's name and
/// path) is offered under the source search `query`.
pub fn source_offered(query: &str, texts: &Vec<String>) -> (res: bool)
    ensures
        res == spec_source_offered(query@, texts@),
{
    if query.unicode_len() == 0 {
        return true;
    }
    let mut i: usize = 0;
    while i < texts.len()
        invariant
            i <= texts.len(),
            query@.len() > 0,
            forall|k: int| 0 <= k < i ==> !seq_contains(lowercase(#[trigger] texts@[k]@), query@),
        decreases texts.len() - i,
    {
        let lowered = to_lowercase(texts[i].as_str());
        if text_contains(lowered.as_str(), query) {
            return true;
        }
        i += 1;
    }
    false
}

} // verus!
