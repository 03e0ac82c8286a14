use wake_workbench::calendar::CalendarDate;
use wake_workbench::delegate::{PageRequest, SessionsDelegate};
use wake_workbench::groups::SortKey;
use wake_workbench::model::SessionMeta;
use wake_workbench::palette::palette_move;
use wake_workbench::query::{SessionFilter, SESSION_PAGE_SIZE};
use wake_workbench::scan::{RefreshNotice, ScanState};
use wake_workbench::seek::SeekProgress;

fn session(key: &str) -> SessionMeta {
    SessionMeta {
        key: key.to_string(),
        id: key.to_string(),
        host: String::new(),
        agent: 1,
        title: key.to_string(),
        project_path: "/tmp/p".to_string(),
        project_name: "p".to_string(),
        file_path: "/tmp/p/s.jsonl".to_string(),
        created_at: 0,
        updated_at: 0,
        message_count: 1,
        size_bytes: 1,
        git_branch: None,
        tokens_used: None,
        archived: false,
        favorite: false,
        pinned: false,
    }
}

fn filter() -> SessionFilter {
    SessionFilter {
        agents: Vec::new(),
        project_paths: Vec::new(),
        updated_since: None,
        ignore_pins: false,
        favorite_only: false,
        include_archived: false,
        roots_only: false,
        title_query: None,
        sort: SortKey::Messages,
        ascending: false,
        limit: SESSION_PAGE_SIZE,
        offset: 0,
    }
}

fn today() -> CalendarDate {
    CalendarDate::from_ymd(2026, 9, 2).unwrap()
}

#[test]
fn a_rescan_asked_for_while_scanning_runs_once_afterwards() {
    let mut scan = ScanState::idle();
    assert!(scan.kick_incremental_scan());
    assert!(!scan.kick_incremental_scan());
    assert!(!scan.kick_incremental_scan());
    assert!(scan.pending_rescan);
    let reaction = scan.on_progress(false, None);
    assert!(reaction.start_scan);
    assert!(reaction.notice.is_none());
    assert!(!reaction.settle);
    assert!(scan.scanning && !scan.pending_rescan);
    let reaction = scan.on_progress(false, None);
    assert!(!reaction.start_scan);
    assert!(reaction.settle);
    assert!(!scan.scanning);
}

#[test]
fn a_refresh_is_answered_once() {
    let mut scan = ScanState::idle();
    assert!(scan.refresh_sessions());
    assert!(!scan.refresh_sessions());
    assert!(scan.on_progress(true, None).notice.is_none());
    let reaction = scan.on_progress(false, Some("disk full".to_string()));
    assert!(matches!(reaction.notice, Some(RefreshNotice::Failed(ref e)) if e == "disk full"));
    assert!(scan.on_progress(false, None).notice.is_none());
    assert!(scan.refresh_sessions());
    assert!(matches!(scan.on_progress(false, None).notice, Some(RefreshNotice::Refreshed)));
}

#[test]
fn seeking_reads_pages_until_the_root_turns_up() {
    let mut seek = SeekProgress::start(100, 250);
    assert!(seek.continues());
    let wanted = "target".to_string();
    assert!(seek.step(&wanted, vec![session("a"), session("b")], 250));
    assert_eq!(seek.offset, 102);
    assert!(!seek.step(&wanted, vec![session("target")], 250));
    assert!(seek.found);
    assert_eq!(seek.offset, 103);
    assert_eq!(seek.loaded.len(), 3);

    let mut ended = SeekProgress::start(10, 250);
    assert!(!ended.step(&wanted, Vec::new(), 40));
    assert_eq!((ended.offset, ended.total, ended.found), (40, 40, false));
}

#[test]
fn palette_selection_stops_at_either_end() {
    assert_eq!(palette_move(0, None, 1), None);
    assert_eq!(palette_move(3, None, 1), Some(0));
    assert_eq!(palette_move(3, Some(2), 1), Some(2));
    assert_eq!(palette_move(3, Some(0), -1), Some(0));
    assert_eq!(palette_move(3, Some(1), 5), Some(2));
    assert_eq!(palette_move(3, None, -4), Some(0));
}

#[test]
fn pages_load_one_at_a_time_and_answers_for_other_lists_are_dropped() {
    let mut delegate =
        SessionsDelegate::paged(vec![session("a"), session("b")], filter(), 5, Vec::new(), 7, today(), 0);
    assert!(delegate.has_more());
    let request = delegate.begin_load_more().expect("a page is due");
    assert_eq!(request, PageRequest { generation: 7, offset: 2, limit: SESSION_PAGE_SIZE });
    assert!(delegate.begin_load_more().is_none());
    delegate.finish_load_more(6, 2, Some((vec![session("x")], 5)), Vec::new(), today());
    assert_eq!(delegate.sessions.len(), 2);
    delegate.finish_load_more(7, 2, Some((vec![session("b"), session("c")], 5)), Vec::new(), today());
    assert_eq!(delegate.sessions.len(), 3);
    assert_eq!(delegate.pagination.as_ref().unwrap().next_offset, 4);
    assert!(delegate.has_more());
    delegate.begin_load_more().expect("a page is due");
    delegate.finish_load_more(7, 4, None, Vec::new(), today());
    assert!(delegate.pagination.as_ref().unwrap().failed);
    assert!(!delegate.has_more());
}
