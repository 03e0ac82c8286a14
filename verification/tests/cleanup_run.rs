use wake_workbench::cleanup::{CleanupInventory, CleanupOptions, CleanupSort};
use wake_workbench::cleanup_run::{
    check_outcome, BackStep, CheckFollowUp, CheckNotice, CleanupEntry, CleanupState, CleanupToggle,
    FilterTrigger,
};
use wake_workbench::detail::DetailState;
use wake_workbench::model::{
    CleanupBatch, CleanupCandidate, CleanupRecord, SessionMeta, TargetStatus, UnavailableSession,
};

fn options() -> CleanupOptions {
    CleanupOptions {
        created_days: 0,
        updated_days: 0,
        agents: Vec::new(),
        projects: Vec::new(),
        exclude_starred: false,
        exclude_pinned: false,
        only_cleanable: false,
        sort: CleanupSort::Updated,
        ascending: None,
    }
}

fn meta(key: &str) -> SessionMeta {
    SessionMeta {
        key: key.to_string(),
        id: key.to_string(),
        host: String::new(),
        agent: 1,
        title: key.to_string(),
        project_path: "/p".to_string(),
        project_name: "p".to_string(),
        file_path: format!("/p/{key}.jsonl"),
        created_at: 0,
        updated_at: 10,
        message_count: 1,
        size_bytes: 100,
        git_branch: None,
        tokens_used: None,
        archived: false,
        favorite: false,
        pinned: false,
    }
}

fn candidate(key: &str) -> CleanupCandidate {
    CleanupCandidate {
        root: meta(key),
        sessions: vec![meta(key)],
        targets: vec![format!("/p/{key}.jsonl")],
        bytes: 100,
        prompts: 2,
        updated_at: 10,
    }
}

fn record(key: &str, indexed: bool, error: Option<&str>) -> CleanupRecord {
    CleanupRecord {
        candidate: candidate(key),
        targets: vec![TargetStatus::Moved],
        restored: false,
        indexed,
        restorable: false,
        error: error.map(str::to_string),
    }
}

fn open_page(state: &mut CleanupState, detail: &mut Option<DetailState>) {
    assert_eq!(state.toggle(detail), CleanupToggle::Entered { reload: true });
    assert!(state.begin_reload(1_000));
    let inventory = CleanupInventory {
        candidates: vec![candidate("a"), candidate("b")],
        unavailable: vec![UnavailableSession {
            session: meta("u"),
            sessions: vec![meta("u")],
            reason: "No adapter".into(),
            updated_at: 5,
        }],
    };
    assert!(state.finish_reload(Ok((inventory, Vec::new()))));
    let rows = vec![
        CleanupEntry::Available(candidate("a")),
        CleanupEntry::Available(candidate("b")),
        CleanupEntry::Unavailable(UnavailableSession {
            session: meta("u"),
            sessions: vec![meta("u")],
            reason: "No adapter".into(),
            updated_at: 5,
        }),
    ];
    state.apply_rows(rows, true, detail);
}

#[test]
fn opening_sets_the_reader_aside_and_leaving_brings_it_back() {
    let mut state = CleanupState::new(options());
    let mut detail = Some(DetailState::loading(meta("reading"), Some(3), 9));
    open_page(&mut state, &mut detail);
    assert!(state.open);
    assert!(detail.is_none());
    assert_eq!(state.saved_detail.as_ref().unwrap().load_id, 9);
    assert_eq!(state.toggle(&mut detail), CleanupToggle::Left);
    assert!(!state.open);
    assert_eq!(detail.as_ref().unwrap().jump_seq, Some(3));
    assert!(!state.leave(&mut detail));
}

#[test]
fn unavailable_rows_are_never_selected() {
    let mut state = CleanupState::new(options());
    let mut detail = None;
    open_page(&mut state, &mut detail);
    state.select_row(2, true);
    assert!(state.selected.is_empty());
    state.select_all(true);
    assert_eq!(state.selected.len(), 2);
    state.select_row(0, false);
    let chosen = state.chosen();
    assert_eq!(chosen.len(), 1);
    assert_eq!(chosen[0].root.key, "b");
    state.clear_selection();
    assert!(state.chosen().is_empty());
    assert!(state.begin_review().is_none());
}

#[test]
fn a_run_removes_its_sessions_and_becomes_the_newest_history_entry() {
    let mut state = CleanupState::new(options());
    let mut detail = None;
    open_page(&mut state, &mut detail);
    state.select_all(true);
    let review = state.begin_review().expect("two candidates are selected");
    assert_eq!(review.len(), 2);
    assert!(state.busy);
    assert!(state.begin_review().is_none());
    state.report_progress(2);
    assert!(state.finish_review());
    assert!(state.begin_execute(2));
    assert!(!state.begin_execute(2));
    let batch = CleanupBatch {
        id: 7,
        stamp: 1_000,
        finished: true,
        records: vec![record("a", true, None), record("b", false, Some("index busy"))],
    };
    state.finish_execute(batch, None, &mut detail);
    assert!(!state.busy && !state.executing);
    assert_eq!(state.shown.len(), 2);
    assert_eq!(state.shown[0].session().key, "b");
    assert_eq!(state.inventory.candidates.len(), 1);
    assert_eq!(state.history.len(), 1);
    assert_eq!(state.history[0].id, 7);
    assert_eq!(state.result.as_ref().unwrap().id, 7);

    let step = state.navigate_back();
    assert_eq!(step, BackStep { handled: true, reload: true });
    assert!(state.result.is_none());
    assert_eq!(state.navigate_back(), BackStep { handled: false, reload: false });
}

#[test]
fn a_cancelled_review_asks_for_no_confirmation() {
    let mut state = CleanupState::new(options());
    let mut detail = None;
    open_page(&mut state, &mut detail);
    state.select_all(true);
    state.begin_review().unwrap();
    state.request_cancel();
    assert!(!state.finish_review());
    assert!(!state.busy);
}

#[test]
fn checks_report_what_came_back() {
    let failed = vec![record("a", false, Some("disk error"))];
    assert_eq!(
        check_outcome(&failed, false, true),
        (Some(CheckNotice::SomeNotUpdated), CheckFollowUp::Refresh)
    );
    let fine = vec![record("a", true, None)];
    assert_eq!(check_outcome(&fine, false, true), (Some(CheckNotice::ListUpdated), CheckFollowUp::Refresh));
    assert_eq!(check_outcome(&fine, true, true), (Some(CheckNotice::Restored), CheckFollowUp::Scan));
    let mut waiting = record("a", true, Some("Cannot access Trash: Operation not permitted (os error 1)"));
    waiting.restorable = true;
    assert_eq!(
        check_outcome(&vec![waiting.clone()], true, false),
        (Some(CheckNotice::RestoreManually), CheckFollowUp::Nothing)
    );
    assert_eq!(
        check_outcome(&vec![waiting], true, true),
        (Some(CheckNotice::SomeRestored), CheckFollowUp::Scan)
    );
    assert_eq!(check_outcome(&fine, true, false), (None, CheckFollowUp::Nothing));
}

#[test]
fn a_check_replaces_the_run_in_the_history() {
    let mut state = CleanupState::new(options());
    let batch = CleanupBatch { id: 4, stamp: 1, finished: true, records: vec![record("a", false, Some("x"))] };
    state.history = vec![batch.clone()];
    assert!(state.begin_check().is_none());
    assert!(state.open_record(0));
    let again = state.begin_check().expect("a run is shown");
    assert_eq!(again.id, 4);
    let mut fixed = again.clone();
    fixed.records[0].indexed = true;
    fixed.records[0].error = None;
    let (notice, follow) = state.finish_check(fixed, false, Ok(()));
    assert_eq!(notice, Some(CheckNotice::ListUpdated));
    assert_eq!(follow, CheckFollowUp::Refresh);
    assert!(state.history[0].records[0].indexed);
    assert!(!state.busy);
}

#[test]
fn clear_empties_filters_and_search_and_the_selection() {
    let mut state = CleanupState::new(options());
    let mut detail = None;
    open_page(&mut state, &mut detail);
    assert!(!state.can_clear_filters());
    assert_eq!(state.filter_trigger(), FilterTrigger { enabled: true, highlighted: false });
    state.filter_query = "proj".to_string();
    assert!(state.can_clear_filters());
    state.filter_query.clear();
    state.options.updated_days = 90;
    state.options.agents = vec![1];
    state.options.sort = CleanupSort::Size;
    assert!(state.can_clear_filters());
    assert!(state.filter_trigger().highlighted);
    state.filter_query = "proj".to_string();
    state.select_all(true);
    assert_eq!(state.selected.len(), 2);
    let rows = vec![CleanupEntry::Available(candidate("a")), CleanupEntry::Available(candidate("b"))];
    state.clear_filters(rows, &mut detail);
    assert!(state.filter_query.is_empty());
    assert_eq!(state.options.updated_days, 0);
    assert!(state.options.agents.is_empty());
    assert_eq!(state.options.sort, CleanupSort::Size);
    assert!(state.selected.is_empty());
    assert_eq!(state.shown.len(), 2);
    assert!(!state.can_clear_filters());
    state.select_all(true);
    state.begin_review().unwrap();
    assert!(!state.filter_trigger().enabled);
}
