use chrono::{Local, TimeZone};
use wake_workbench::calendar::CalendarDate;
use wake_workbench::delegate::{ChildCount, SessionsDelegate};
use wake_workbench::groups::{session_group_label, GroupLabel, SortKey};
use wake_workbench::model::{AgentId, SessionMeta};
use wake_workbench::query::{same_session_query, session_matches_filter, SessionFilter, SESSION_PAGE_SIZE};

const CODEX: AgentId = 1;
const GROK: AgentId = 5;

fn local_ms(year: i32, month: u32, day: u32) -> i64 {
    Local
        .with_ymd_and_hms(year, month, day, 12, 0, 0)
        .single()
        .expect("test date should be unambiguous in the local timezone")
        .timestamp_millis()
}

fn date(year: i32, month: u32, day: u32) -> CalendarDate {
    CalendarDate::from_ymd(year, month, day).unwrap()
}

fn session(key: &str, updated_at: i64, pinned: bool) -> SessionMeta {
    SessionMeta {
        key: key.to_string(),
        id: key.to_string(),
        host: String::new(),
        agent: CODEX,
        title: key.to_string(),
        project_path: "/tmp/wake-test".to_string(),
        project_name: "wake-test".to_string(),
        file_path: "/tmp/wake-test/session.jsonl".to_string(),
        created_at: updated_at,
        updated_at,
        message_count: 1,
        size_bytes: 1,
        git_branch: None,
        tokens_used: None,
        archived: false,
        favorite: false,
        pinned,
    }
}

fn filter() -> SessionFilter {
    SessionFilter {
        agents: Vec::new(),
        project_paths: Vec::new(),
        updated_since: None,
        ignore_pins: false,
        favorite_only: false,
        include_archived: false,
        roots_only: false,
        title_query: None,
        sort: SortKey::Updated,
        ascending: false,
        limit: 0,
        offset: 0,
    }
}

fn label(delegate: &SessionsDelegate, section: usize) -> String {
    delegate.groups[section].label.text()
}

#[test]
fn date_labels_respect_calendar_week_boundaries() {
    let wednesday = date(2026, 9, 2);
    assert_eq!(session_group_label(local_ms(2026, 9, 1), wednesday).text(), "Yesterday");
    assert_eq!(
        session_group_label(local_ms(2026, 8, 31), wednesday).text(),
        "Earlier this week"
    );
    assert_eq!(session_group_label(local_ms(2026, 8, 30), wednesday).text(), "August");

    let monday = date(2026, 9, 7);
    assert_eq!(session_group_label(local_ms(2026, 9, 6), monday).text(), "Yesterday");
    assert_eq!(session_group_label(local_ms(2026, 9, 5), monday).text(), "September");
}

#[test]
fn time_descending_groups_pinned_and_calendar_ranges() {
    let sessions = vec![
        session("pinned", local_ms(2025, 1, 1), true),
        session("today", local_ms(2026, 9, 2), false),
        session("yesterday", local_ms(2026, 9, 1), false),
        session("week", local_ms(2026, 8, 31), false),
        session("month", local_ms(2026, 8, 30), false),
    ];
    let delegate = SessionsDelegate::new_at(sessions, SortKey::Updated, false, date(2026, 9, 2), 0);
    let labels: Vec<String> = (0..delegate.groups.len()).map(|s| label(&delegate, s)).collect();
    assert_eq!(
        labels,
        ["Pinned", "Today", "Yesterday", "Earlier this week", "August"]
    );
    assert_eq!((delegate.groups[0].start, delegate.groups[0].end), (0, 1));
    assert_eq!((delegate.groups[3].start, delegate.groups[3].end), (3, 4));

    assert_eq!(delegate.flat_index(3, 0), Some(3));
    assert_eq!(delegate.index_path(4), Some((4, 0)));
}

#[test]
fn non_time_descending_sorts_stay_flat() {
    let sessions = vec![
        session("one", local_ms(2026, 9, 2), false),
        session("two", local_ms(2026, 9, 1), false),
    ];
    for (sort, ascending) in [(SortKey::Messages, false), (SortKey::Updated, true)] {
        let delegate = SessionsDelegate::new_at(sessions.clone(), sort, ascending, date(2026, 9, 2), 0);
        assert_eq!(delegate.groups.len(), 1);
        assert!(label(&delegate, 0).is_empty());
        assert_eq!((delegate.groups[0].start, delegate.groups[0].end), (0, 2));
    }
}

#[test]
fn appended_pages_deduplicate_and_rebuild_flat_indexes() {
    let one = session("one", local_ms(2026, 9, 2), false);
    let duplicate = one.clone();
    let two = session("two", local_ms(2026, 9, 1), false);
    let mut delegate = SessionsDelegate::new(vec![one], SortKey::Messages, false, 0).unwrap();

    delegate.append_sessions(vec![duplicate, two], Vec::new(), CalendarDate::today().unwrap());

    assert_eq!(delegate.sessions.len(), 2);
    assert_eq!(delegate.sessions[0].key, "one");
    assert_eq!(delegate.sessions[1].key, "two");
    assert_eq!((delegate.groups[0].start, delegate.groups[0].end), (0, 2));
    assert_eq!(delegate.index_path(1), Some((0, 1)));
}

#[test]
fn tree_delegate_expands_children_without_changing_root_pagination() {
    let today = date(2026, 9, 2);
    let mut parent = session("grok:parent", local_ms(2026, 9, 1), false);
    parent.agent = GROK;
    parent.file_path = "/tmp/grok/parent/updates.jsonl".into();
    let mut child = session("grok:child", local_ms(2026, 9, 2), false);
    child.agent = GROK;
    child.file_path = "/tmp/grok/child/updates.jsonl".into();
    let mut other = session("grok:other", local_ms(2026, 8, 31), false);
    other.agent = GROK;
    other.file_path = "/tmp/grok/other/updates.jsonl".into();
    let mut query = filter();
    query.roots_only = true;
    query.sort = SortKey::Messages;
    query.limit = SESSION_PAGE_SIZE;
    let counts = vec![ChildCount { key: parent.key.clone(), count: 1 }];
    let roots = vec![parent.clone(), other.clone()];
    let mut delegate = SessionsDelegate::paged(roots, query, 2, counts, 1, today, 0);

    assert_eq!(delegate.sessions.len(), 2);
    assert_eq!(delegate.rows.len(), 2);
    assert_eq!(delegate.rows[0].child_count, 1);
    assert_eq!(delegate.row_index(&other.key), Some(1));
    assert!(delegate.toggle(&parent.key, Some(vec![child.clone()]), today));
    assert_eq!(delegate.sessions.len(), 2, "children must not advance pagination");
    assert_eq!(delegate.rows.len(), 3);
    assert_eq!(delegate.rows[0].meta.key, parent.key);
    assert_eq!(delegate.rows[1].meta.key, child.key);
    assert_eq!(delegate.rows[1].depth, 1);
    assert_eq!(delegate.index_path(1), Some((0, 1)));
    assert_eq!(delegate.row_index(&other.key), Some(2));
    assert!(delegate.toggle(&parent.key, None, today));
    assert_eq!(delegate.rows.len(), 2);
    assert_eq!(delegate.row_index(&other.key), Some(1));
}

#[test]
fn date_change_rebuilds_groups_and_stable_indexes() {
    let september_second = date(2026, 9, 2);
    let september_third = date(2026, 9, 3);
    let sessions = vec![
        session("recent", local_ms(2026, 9, 2), false),
        session("older", local_ms(2026, 9, 1), false),
    ];
    let mut delegate = SessionsDelegate::new_at(sessions, SortKey::Updated, false, september_second, 0);

    assert_eq!(label(&delegate, 0), "Today");
    assert!(delegate.rebuild_groups_at(september_third, 0));
    assert_eq!(label(&delegate, 0), "Yesterday");
    assert_eq!(label(&delegate, 1), "Earlier this week");
    assert_eq!(delegate.index_path(1), Some((1, 0)));
    assert!(!delegate.rebuild_groups_at(september_third, 0));
}

#[test]
fn refresh_query_comparison_ignores_only_page_extent() {
    let mut current = filter();
    current.limit = SESSION_PAGE_SIZE;
    let mut reloaded = current.clone();
    reloaded.limit = SESSION_PAGE_SIZE * 3;
    reloaded.offset = SESSION_PAGE_SIZE * 2;
    assert!(same_session_query(&current, &reloaded));

    current.favorite_only = true;
    assert!(!same_session_query(&current, &reloaded));
}

#[test]
fn archived_search_hits_are_not_visible_in_active_list() {
    let mut archived = session("archived", local_ms(2026, 9, 2), false);
    archived.archived = true;
    let active_filter = filter();
    assert!(!session_matches_filter(&archived, &active_filter));

    let mut archived_filter = filter();
    archived_filter.include_archived = true;
    assert!(session_matches_filter(&archived, &archived_filter));
}

#[test]
fn month_of_another_year_names_the_year() {
    assert_eq!(GroupLabel::MonthOfYear(8, 2025).text(), "August 2025");
    assert_eq!(GroupLabel::MonthOfYear(1, 12345).text(), "January +12345");
    assert_eq!(GroupLabel::Flat.text(), "");
    let today = date(2026, 9, 2);
    assert_eq!(session_group_label(local_ms(2025, 12, 24), today).text(), "December 2025");
    assert_eq!(session_group_label(local_ms(2026, 9, 3), today).text(), "Today");
    assert_eq!(session_group_label(i64::MAX, today), GroupLabel::Undated);
    assert_eq!(session_group_label(i64::MIN, today).text(), "Undated");
}

#[test]
fn section_positions_round_trip() {
    let sessions = vec![
        session("pinned", local_ms(2025, 1, 1), true),
        session("a", local_ms(2026, 9, 2), false),
        session("b", local_ms(2026, 9, 2), false),
        session("c", local_ms(2026, 8, 1), false),
    ];
    let delegate = SessionsDelegate::new_at(sessions, SortKey::Updated, false, date(2026, 9, 2), 0);
    for flat in 0..4 {
        let (section, row) = delegate.index_path(flat).unwrap();
        assert_eq!(delegate.flat_index(section, row), Some(flat));
    }
    assert_eq!(delegate.index_path(4), None);
    assert_eq!(delegate.flat_index(1, 2), None);
    assert_eq!(delegate.sections_count(), 3);
    assert_eq!(delegate.items_count(1), 2);
}

#[test]
fn calendar_dates_exist_only_within_the_calendar() {
    assert!(CalendarDate::from_ymd(2024, 2, 29).is_some());
    assert!(CalendarDate::from_ymd(2026, 2, 29).is_none());
    assert!(CalendarDate::from_ymd(2026, 13, 1).is_none());
    assert!(CalendarDate::from_ymd(262143, 1, 1).is_none());
    let monday = date(2026, 9, 7);
    assert_eq!(monday.weekday, 0);
    assert_eq!(date(2026, 9, 8).day_number, monday.day_number + 1);
    assert_eq!(date(1, 1, 1).day_number, 1);
    assert!(date(0, 12, 31).day_number <= 0);
    assert!(CalendarDate::today().unwrap().day_number >= 719_162);
    assert_eq!(date(1970, 1, 1).day_number, 719_163);
}

#[test]
fn nested_rows_stay_in_their_root_section() {
    let today = date(2026, 9, 2);
    let parent = session("parent", local_ms(2026, 9, 1), false);
    let child = session("child", local_ms(2026, 9, 2), false);
    let other = session("other", local_ms(2026, 8, 31), false);
    let mut query = filter();
    query.roots_only = true;
    let counts = vec![ChildCount { key: parent.key.clone(), count: 1 }];
    let mut delegate =
        SessionsDelegate::paged(vec![parent.clone(), other], query, 2, counts, 1, today, 0);
    assert!(delegate.toggle(&parent.key, Some(vec![child]), today));
    assert_eq!(delegate.groups.len(), 2);
    assert_eq!(label(&delegate, 0), "Yesterday");
    assert_eq!((delegate.groups[0].start, delegate.groups[0].end), (0, 2));
    assert_eq!(delegate.rows[1].meta.key, "child");
    assert_eq!(label(&delegate, 1), "Earlier this week");
}

#[test]
fn consecutive_days_count_one_apart() {
    assert_eq!(date(2026, 1, 1).day_number, date(2025, 12, 31).day_number + 1);
    assert_eq!(date(2024, 3, 1).day_number, date(2024, 2, 29).day_number + 1);
    assert_eq!(date(1, 1, 1).weekday, 0);
    assert_eq!(date(2026, 9, 2).weekday, 2);
    let first = date(-262143, 1, 1);
    assert_eq!(session_group_label(i64::MAX, first), GroupLabel::Undated);
}

#[test]
fn asking_for_a_page_keeps_the_list_as_it_is() {
    let today = date(2026, 9, 2);
    let mut query = filter();
    query.ascending = true;
    let mut delegate = SessionsDelegate::paged(vec![session("a", local_ms(2026, 9, 1), false)], query, 9, Vec::new(), 3, today, 0);
    let groups = delegate.groups.clone();
    assert!(delegate.begin_load_more().is_some());
    assert!(delegate.ascending);
    assert_eq!(delegate.sort, SortKey::Updated);
    assert_eq!(delegate.groups, groups);
    assert_eq!(delegate.grouped_on, today);
}
