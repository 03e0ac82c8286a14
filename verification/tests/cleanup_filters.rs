use std::collections::BTreeSet;
use wake_workbench::cleanup::{
    age_label, bytes, choice_button, date_field, exclusions_chosen, filter_summary, has_filters,
    option_label, agent_label, section, sort_label, source_choices, source_offered, source_query, text_lt, ByteSize,
    ChosenSources, CleanupInventory, CleanupOptions, CleanupSort, ThemeColor, TimeField,
};
use wake_workbench::cleanup_view::title_tooltip;
use wake_workbench::model::{AgentId, SessionMeta, UnavailableSession};

const CLAUDE_CODE: AgentId = 0;
const CODEX: AgentId = 1;
const GEMINI: AgentId = 2;

fn options() -> CleanupOptions {
    CleanupOptions {
        created_days: 0,
        updated_days: 0,
        agents: Vec::new(),
        projects: Vec::new(),
        exclude_starred: false,
        exclude_pinned: false,
        only_cleanable: false,
        sort: CleanupSort::Updated,
        ascending: None,
    }
}

fn meta(agent: AgentId, project: &str, archived: bool, updated_at: i64) -> SessionMeta {
    SessionMeta {
        key: format!("{agent}:{project}"),
        id: project.into(),
        host: String::new(),
        agent,
        title: project.into(),
        project_path: format!("/synthetic/{project}"),
        project_name: project.into(),
        file_path: format!("/synthetic/{project}/session.jsonl"),
        created_at: 0,
        updated_at,
        message_count: 1,
        size_bytes: 0,
        git_branch: None,
        tokens_used: None,
        archived,
        favorite: false,
        pinned: false,
    }
}

fn unavailable(session: SessionMeta) -> UnavailableSession {
    UnavailableSession {
        sessions: vec![session.clone()],
        updated_at: session.updated_at,
        reason: "No adapter".into(),
        session,
    }
}

#[test]
fn sources_include_archived_unavailable_and_selected_missing_entries() {
    let inventory = CleanupInventory {
        candidates: Vec::new(),
        unavailable: vec![
            unavailable(meta(CODEX, "archive-only", true, 100)),
            unavailable(meta(CLAUDE_CODE, "current", false, 200)),
        ],
    };
    assert_eq!(inventory.unavailable.len(), 2);
    let mut chosen = options();
    chosen.agents = vec![GEMINI];
    chosen.projects = vec!["/synthetic/missing".into()];
    chosen.only_cleanable = true;
    let (agents, projects) = source_choices(&inventory, &chosen);
    assert_eq!(
        agents.into_iter().collect::<BTreeSet<_>>(),
        BTreeSet::from([CODEX, CLAUDE_CODE, GEMINI])
    );
    assert_eq!(
        projects,
        vec![
            ("/synthetic/current".to_string(), "current".to_string()),
            ("/synthetic/archive-only".to_string(), "archive-only".to_string()),
            ("/synthetic/missing".to_string(), "missing".to_string()),
        ]
    );
    // Clearing the selection keeps all real sources, even with unavailable
    // rows excluded. Options never determine which real sources are offered.
    let (_, projects) = source_choices(&inventory, &options());
    assert_eq!(projects.len(), 2);
}

#[test]
fn chosen_agents_come_back_in_ascending_order_once() {
    let inventory = CleanupInventory {
        candidates: Vec::new(),
        unavailable: vec![
            unavailable(meta(GEMINI, "one", false, 5)),
            unavailable(meta(CODEX, "one", false, 7)),
        ],
    };
    let mut chosen = options();
    chosen.agents = vec![GEMINI, CLAUDE_CODE];
    let (agents, projects) = source_choices(&inventory, &chosen);
    assert_eq!(agents, vec![CLAUDE_CODE, CODEX, GEMINI]);
    assert_eq!(projects, vec![("/synthetic/one".to_string(), "one".to_string())]);
}

#[test]
fn filters_are_counted_and_cleared() {
    let mut o = options();
    assert!(!has_filters(&o));
    o.updated_days = 30;
    o.exclude_pinned = true;
    o.only_cleanable = true;
    o.sort = CleanupSort::Size;
    assert!(has_filters(&o));
    assert_eq!(exclusions_chosen(&o), 2);
    assert_eq!(date_field(&o), TimeField::Updated);
    o.clear_filters();
    assert!(!has_filters(&o));
    assert_eq!(o.sort, CleanupSort::Size);
    o.created_days = 90;
    assert_eq!(date_field(&o), TimeField::Created);
}

#[test]
fn filter_summary_names_single_choices() {
    let mut o = options();
    o.created_days = 365;
    o.updated_days = 30;
    o.agents = vec![CODEX];
    o.projects = vec!["/a".into(), "/b".into()];
    let summary = filter_summary(&o);
    assert_eq!(summary.dates, vec![(TimeField::Created, 365), (TimeField::Updated, 30)]);
    assert!(matches!(summary.agents, ChosenSources::One(CODEX)));
    assert!(matches!(summary.projects, ChosenSources::Several(2)));
    assert!(!summary.exclude_unavailable);
}

#[test]
fn labels_of_the_filter_panel() {
    assert_eq!(sort_label(CleanupSort::Size), "File size");
    assert_eq!(age_label(180), "180 days ago");
    assert_eq!(age_label(365), "1 year ago");
    assert_eq!(age_label(7), "Any time");
    assert_eq!(bytes(0), ByteSize::Zero);
    assert_eq!(bytes(1024 * 1024 * 1024), ByteSize::Gigabytes(1024 * 1024 * 1024));
    assert_eq!(bytes(1023), ByteSize::Smaller(1023));
    let chosen = choice_button(true);
    assert_eq!(chosen.foreground, ThemeColor::Primary);
    assert_eq!(choice_button(false).hover, ThemeColor::ListHover);
    let label = option_label("project", false);
    assert_eq!(label.check, ThemeColor::Transparent);
    assert!(!label.leading_icon);
    assert!(agent_label("Codex", true).leading_icon);
    assert_eq!(section("Agents", 0).chosen, None);
    assert_eq!(section("Agents", 2).chosen, Some(2));
}

#[test]
fn text_order_is_by_code_point() {
    assert!(text_lt("abc", "abd"));
    assert!(text_lt("ab", "abc"));
    assert!(!text_lt("abc", "abc"));
    assert!(text_lt("Z", "a"));
}

#[test]
fn title_tooltip_names_starred_and_pinned_sessions() {
    assert_eq!(title_tooltip("Fix build", false, false), "Fix build");
    assert_eq!(
        title_tooltip("Fix build", true, true),
        "Fix build\nIncludes a starred session\nIncludes a pinned session"
    );
    assert_eq!(title_tooltip("t", false, true), "t\nIncludes a pinned session");
}

#[test]
fn source_search_matches_names_and_paths_in_lower_case() {
    let texts = vec!["My Project".to_string(), "/synthetic/current".to_string()];
    assert!(source_offered("", &Vec::new()));
    assert!(source_offered("proj", &texts));
    assert!(source_offered("synthetic", &texts));
    assert!(!source_offered("missing", &texts));
    assert!(!source_offered("x", &Vec::new()));
    assert_eq!(source_query("  Syn THETIC \t"), "syn thetic");
    assert!(source_offered(&source_query(" PROJ "), &texts));
}
