use wake_workbench::calendar::CalendarDate;
use wake_workbench::insights::{
    distribution_scale, heatmap_window, month_ticks, trend_totals, week_breakdown, dist_caption, hour_label, lookup_board, peak, prompts_label, trend_caption, trend_layers,
    usage_board, week_note, DistCaption, HourLabel, InsightsMetric, InsightsRange, LookupTally,
    LookupView, TrendLayer, TrendSeries, UsageBoard, UsageTally, WeekNote,
};
use wake_workbench::model::SessionMeta;
use wake_workbench::stamp::{format_stamp, history_date};
use wake_workbench::text::replace_text;
use wake_workbench::workspace::{
    hit_snippet, list_empty_state, order_agent_counts, EmptyList, context_title, sidebar_status, ContextTitle, Page, ProjectInfo, QueryChange, Scope,
    SearchDelegate, SearchHit,
};

fn tally(name: &str, sessions: i64, prompts: i64, tokens: i64) -> UsageTally {
    UsageTally { name: name.to_string(), sessions, prompts, tokens }
}

fn series(name: &str, weekly: Vec<i64>) -> TrendSeries {
    TrendSeries { name: name.to_string(), weekly }
}

fn session(key: &str) -> SessionMeta {
    SessionMeta {
        key: key.to_string(),
        id: key.to_string(),
        host: String::new(),
        agent: 1,
        title: key.to_string(),
        project_path: "/tmp/p".to_string(),
        project_name: "p".to_string(),
        file_path: "/tmp/p/s.jsonl".to_string(),
        created_at: 0,
        updated_at: 0,
        message_count: 1,
        size_bytes: 1,
        git_branch: None,
        tokens_used: None,
        archived: false,
        favorite: false,
        pinned: false,
    }
}

#[test]
fn views_cycle_through_every_choice() {
    let mut r = InsightsRange::Hour;
    for _ in 0..3 {
        assert_eq!(r.next().prev(), r);
        r = r.next();
    }
    assert_eq!(r, InsightsRange::Hour);
    assert_eq!(LookupView::All.next().next().next(), LookupView::All);
    assert_eq!(InsightsRange::Weekday.title(), "By weekday");
}

#[test]
fn usage_board_sorts_descending_and_keeps_ties_in_order() {
    let rows = vec![
        tally("a", 3, 10, 0),
        tally("b", 9, 1, 0),
        tally("c", 3, 5, 0),
        tally("d", 1, 2, 0),
        tally("e", 4, 2, 0),
        tally("f", 2, 2, 0),
        tally("g", 5, 2, 0),
    ];
    let board = usage_board(&rows, InsightsMetric::Sessions, UsageBoard::Projects);
    assert_eq!(board.metric, InsightsMetric::Sessions);
    assert_eq!(board.rows, vec![1, 6, 4, 0, 2, 5]);
    assert_eq!(board.max, 9);
    assert_eq!(board.to_next, InsightsMetric::Prompts);
    assert_eq!(board.to_prev, InsightsMetric::Prompts);

    // Tokens are not offered when no row reported them.
    let board = usage_board(&rows, InsightsMetric::Tokens, UsageBoard::Agents);
    assert_eq!(board.metric, InsightsMetric::Sessions);
    assert_eq!(board.rows.len(), 7);
}

#[test]
fn token_board_lists_only_rows_with_tokens() {
    let rows = vec![tally("a", 1, 1, 0), tally("b", 1, 1, 70), tally("c", 1, 1, 30)];
    let board = usage_board(&rows, InsightsMetric::Tokens, UsageBoard::Models);
    assert_eq!(board.metric, InsightsMetric::Tokens);
    assert_eq!(board.rows, vec![1, 2]);
    assert_eq!(board.max, 70);
    assert_eq!(board.to_prev, InsightsMetric::Sessions);
    assert_eq!(board.to_next, InsightsMetric::Prompts);
    let empty = usage_board(&Vec::new(), InsightsMetric::Prompts, UsageBoard::Agents);
    assert!(empty.rows.is_empty());
    assert_eq!(empty.max, 1);
}

#[test]
fn lookup_board_counts_both_channels() {
    let rows = vec![
        LookupTally { name: "a".into(), mcp: 2, cli: 0 },
        LookupTally { name: "b".into(), mcp: 0, cli: 5 },
        LookupTally { name: "c".into(), mcp: 3, cli: 3 },
    ];
    let board = lookup_board(&rows, LookupView::All);
    assert_eq!((board.mcp, board.cli), (5, 8));
    assert_eq!(board.rows, vec![2, 1, 0]);
    assert_eq!(board.max, 6);
    let mcp = lookup_board(&rows, LookupView::Mcp);
    assert_eq!(mcp.rows, vec![2, 0]);
}

#[test]
fn activity_captions() {
    assert_eq!(peak(&vec![1, 4, 2, 4, 0]), (3, 4));
    assert_eq!(peak(&Vec::new()), (0, 0));
    assert_eq!(hour_label(0), HourLabel::Midnight);
    assert_eq!(hour_label(12), HourLabel::Noon);
    assert_eq!(hour_label(15), HourLabel::Pm(3));
    assert_eq!(hour_label(27), HourLabel::Am(3));
    assert_eq!(dist_caption(InsightsRange::Hour, 13, 4), DistCaption::AroundHour(HourLabel::Pm(1)));
    assert_eq!(dist_caption(InsightsRange::Month, 13, 0), DistCaption::Plain);
    assert_eq!(dist_caption(InsightsRange::Weekday, 2, 1), DistCaption::OnWeekday(2));
    assert_eq!(prompts_label(0), None);
    assert_eq!(prompts_label(7), Some(7));
    assert_eq!(week_note(0, 0), WeekNote::NoActivity);
    assert_eq!(week_note(3, 0), WeekNote::NewThisWeek);
    assert_eq!(week_note(0, 3), WeekNote::Changed);
}

#[test]
fn trend_merges_agents_past_the_fifth() {
    let all = vec![
        series("a", vec![1, 1, 0]),
        series("b", vec![1, 2, 0]),
        series("c", vec![0, 0, 0]),
        series("d", vec![0, 0, 0]),
        series("e", vec![0, 0, 0]),
        series("f", vec![5, 0, 1]),
        series("g", vec![1, 1]),
    ];
    let layers = trend_layers(&all, 3);
    assert_eq!(layers.len(), 6);
    assert_eq!(layers[1].name, "b");
    assert!(!layers[4].other);
    assert!(layers[5].other);
    assert_eq!(layers[5].weekly, vec![6, 1, 1]);
    // Nobody has prompts this week but the merged layer: last week's leader.
    assert_eq!(trend_caption(&layers, 3), Some("b".to_string()));
    let quiet = vec![TrendLayer { name: "x".into(), weekly: vec![0, 0], other: false }];
    assert_eq!(trend_caption(&quiet, 2), None);
}

#[test]
fn stamps_are_written_as_chrono_writes_them() {
    let date = CalendarDate::from_ymd(2026, 9, 2).unwrap();
    assert_eq!(format_stamp(date, 7, 5), "2026-09-02 07:05");
    let ancient = CalendarDate::from_ymd(-44, 3, 15).unwrap();
    assert_eq!(format_stamp(ancient, 23, 59), "-0044-03-15 23:59");
    let far = CalendarDate::from_ymd(12026, 1, 1).unwrap();
    assert_eq!(format_stamp(far, 0, 0), "+12026-01-01 00:00");
    let text = history_date(0).expect("the epoch exists everywhere");
    assert_eq!(text.len(), 16);
    assert_eq!(&text[4..5], "-");
    assert_eq!(history_date(i64::MAX), None);
    assert_eq!(history_date(i64::MIN), None);
}

#[test]
fn full_pages_clear_the_sidebar_scope() {
    let mut scope = Scope {
        page: Page::Sessions,
        selected_agent: Some(3),
        selected_project: Some("/p".into()),
        favorite_only: false,
    };
    assert!(!scope.show_page(Page::Sessions));
    assert_eq!(scope.selected_agent, Some(3));
    let projects = vec![ProjectInfo { path: "/p".into(), name: "proj".into() }];
    assert!(matches!(context_title(&scope, &projects), ContextTitle::Project(ref n) if n == "proj"));
    assert!(scope.show_page(Page::Insights));
    assert_eq!(scope.selected_agent, None);
    assert_eq!(scope.selected_project, None);
    assert!(matches!(context_title(&scope, &projects), ContextTitle::AllSessions));
    scope.set_scope(Some(4), None, false);
    assert_eq!(scope.page, Page::Sessions);
    assert!(matches!(context_title(&scope, &projects), ContextTitle::Agent(4)));
    scope.set_scope(None, Some("/gone".into()), true);
    assert!(matches!(context_title(&scope, &projects), ContextTitle::Starred));
}

#[test]
fn palette_searches_trimmed_queries_once() {
    let mut palette = SearchDelegate::new();
    assert!(palette.shows_guide());
    assert!(matches!(palette.query_changed("  rust  "), QueryChange::Search(ref q) if q == "rust"));
    assert!(matches!(palette.query_changed("rust "), QueryChange::Unchanged));
    let hit = SearchHit { session: session("k"), seq: 9, snippet: "s".into(), timestamp: None };
    assert_eq!(palette.finish_search(vec![hit], false), Some(0));
    assert_eq!(palette.hit_target(None), Some(("k".to_string(), 9)));
    assert_eq!(palette.hit_target(Some(1)), None);
    assert!(matches!(palette.query_changed("   "), QueryChange::Cleared));
    assert_eq!(palette.items_count(), 0);
}

#[test]
fn sidebar_shows_the_work_going_on() {
    let idle = sidebar_status(false, 0, 0, &None, false, &Vec::new());
    assert!(!idle.busy);
    assert!(idle.note.is_none());
    let scanning = sidebar_status(true, 3, 10, &None, false, &Vec::new());
    assert!(scanning.busy);
    assert!(scanning.progress.is_some());
}

fn layer(name: &str, weekly: Vec<i64>) -> TrendLayer {
    TrendLayer { name: name.to_string(), weekly, other: false }
}

#[test]
fn trend_columns_add_up_their_layers() {
    let layers = vec![layer("a", vec![1, 0, 4]), layer("b", vec![2, 0, 0]), layer("c", vec![0, 0, 5])];
    let (totals, scale) = trend_totals(&layers, 3);
    assert_eq!(totals, vec![3, 0, 9]);
    assert_eq!(scale, 9);
    let (totals, scale) = trend_totals(&vec![layer("a", vec![0, 0])], 2);
    assert_eq!(totals, vec![0, 0]);
    assert_eq!(scale, 1);
    assert_eq!(week_breakdown(&layers, 0), vec![0, 1]);
    assert_eq!(week_breakdown(&layers, 1), Vec::<usize>::new());
    let many = vec![
        layer("a", vec![1]),
        layer("b", vec![0]),
        layer("c", vec![2]),
        layer("d", vec![3]),
        layer("e", vec![4]),
    ];
    assert_eq!(week_breakdown(&many, 0), vec![0, 2, 3]);
    assert_eq!(distribution_scale(&vec![0, 0, 0]), 1);
    assert_eq!(distribution_scale(&vec![3, 8, 2]), 8);
}

#[test]
fn heatmap_cells_cover_the_window_from_its_start() {
    let start = CalendarDate::from_ymd(2026, 8, 31).unwrap();
    let day = |d: u32| CalendarDate::from_ymd(2026, 9, d).unwrap();
    let before = CalendarDate::from_ymd(2026, 8, 30).unwrap();
    let daily = vec![(before, 50), (day(1), 3), (day(3), 7), (day(3), 2), (day(20), 90)];
    let (cells, scale) = heatmap_window(&daily, start, 14);
    assert_eq!(cells.len(), 14);
    assert_eq!(cells[1], 3);
    assert_eq!(cells[3], 2);
    assert_eq!(cells.iter().sum::<i64>(), 5);
    assert_eq!(scale, 7);
    let (cells, scale) = heatmap_window(&Vec::new(), start, 7);
    assert_eq!(cells, vec![0; 7]);
    assert_eq!(scale, 1);
}

#[test]
fn month_ticks_mark_weeks_that_start_a_month() {
    let start = CalendarDate::from_ymd(2026, 8, 31).unwrap();
    assert_eq!(month_ticks(start, 8), vec![(1, 9), (5, 10)]);
    let first = CalendarDate::from_ymd(2026, 6, 1).unwrap();
    assert_eq!(month_ticks(first, 1), vec![(0, 6)]);
    assert_eq!(month_ticks(start, 0), Vec::new());
}

#[test]
fn sidebar_agents_come_in_agent_order() {
    assert_eq!(
        order_agent_counts(vec![(3, 10), (1, 5), (3, 2), (0, 7)]),
        vec![(0, 7), (1, 5), (3, 10), (3, 2)]
    );
    assert_eq!(order_agent_counts(Vec::new()), Vec::new());
}

#[test]
fn hit_snippets_mark_matches_with_brackets_on_one_line() {
    assert_eq!(hit_snippet("a\u{1}b\u{2}c\nd", "\u{1}", "\u{2}"), "a「b」c d");
    assert_eq!(hit_snippet("plain", "<<", ">>"), "plain");
    assert_eq!(replace_text("aaa", "aa", "b"), "ba");
    assert_eq!(replace_text("xyx", "x", ""), "y");
    assert_eq!("a\u{1}b".replace('\u{1}', "「"), replace_text("a\u{1}b", "\u{1}", "「"));
}

#[test]
fn empty_lists_say_why() {
    assert_eq!(list_empty_state(3, 0, true), None);
    assert_eq!(list_empty_state(0, 0, true), Some(EmptyList::Building));
    assert_eq!(list_empty_state(0, 0, false), Some(EmptyList::EmptyLibrary));
    assert_eq!(list_empty_state(0, 12, true), Some(EmptyList::NoMatches));
}
