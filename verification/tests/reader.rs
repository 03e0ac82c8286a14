use std::collections::HashSet;
use std::io::Cursor;
use wake_workbench::detail::{detail_for_load, toggle_expanded_row, visible_git_branch, DetailState};
use wake_workbench::images::{image_probe, ImageFormat};
use wake_workbench::model::SessionMeta;
use wake_workbench::transcript::{
    load_visible_transcript, MessageKind, MessageRole, TranscriptMessage,
    clip_tool_text, non_blank_tool_text, tool_cluster_heading, ToolCallView, ToolHeading,
};

fn session(key: &str, updated_at: i64, pinned: bool) -> SessionMeta {
    SessionMeta {
        key: key.to_string(),
        id: key.to_string(),
        host: String::new(),
        agent: 1,
        title: key.to_string(),
        project_path: "/tmp/wake-test".to_string(),
        project_name: "wake-test".to_string(),
        file_path: "/tmp/wake-test/session.jsonl".to_string(),
        created_at: updated_at,
        updated_at,
        message_count: 1,
        size_bytes: 1,
        git_branch: None,
        tokens_used: None,
        archived: false,
        favorite: false,
        pinned,
    }
}

fn tool_call(name: &str, input_preview: &str) -> ToolCallView {
    ToolCallView {
        id: name.to_string(),
        name: name.to_string(),
        input_preview: input_preview.to_string(),
        input: Some(input_preview.to_string()),
        output: None,
        is_error: false,
    }
}

fn png(width: u32, height: u32) -> Vec<u8> {
    let mut out = Cursor::new(Vec::new());
    image::DynamicImage::new_rgba8(width, height)
        .write_to(&mut out, image::ImageFormat::Png)
        .expect("png fixture");
    out.into_inner()
}

#[test]
fn cleanup_preview_completes_both_loads_of_the_same_session() {
    for preview_first in [false, true] {
        let mut current = Some(DetailState::loading(session("same", 0, false), None, 1));
        let library_load = current.as_ref().unwrap().load_id;
        // Enter cleanup before the library transcript finishes, then preview it.
        let mut saved = current.take();
        current = Some(DetailState::loading(session("same", 0, false), None, 2));
        let preview_load = current.as_ref().unwrap().load_id;
        let completions = if preview_first {
            [preview_load, library_load]
        } else {
            [library_load, preview_load]
        };
        for load_id in completions {
            detail_for_load(&mut current, &mut saved, "same", load_id)
                .unwrap()
                .loading = false;
        }
        assert!(!current.as_ref().unwrap().loading);
        // The cleanup toggle restores the original library state.
        current = saved.take();
        assert!(!current.as_ref().unwrap().loading, "Library reader stayed loading");
    }
}

#[test]
fn replaced_detail_ignores_an_older_load_of_the_same_session() {
    let old = DetailState::loading(session("same", 0, false), None, 1);
    let mut current = Some(DetailState::loading(session("same", 0, false), Some(12), 2));
    let mut saved = None;
    assert!(detail_for_load(&mut current, &mut saved, "same", old.load_id).is_none());
    assert_eq!(current.as_ref().unwrap().jump_seq, Some(12));
}

#[test]
fn meaningless_git_branches_are_hidden() {
    assert_eq!(visible_git_branch(None), None);
    assert_eq!(visible_git_branch(Some("")), None);
    assert_eq!(visible_git_branch(Some(" HEAD ")), None);
    assert_eq!(visible_git_branch(Some("detached")), None);
    assert_eq!(visible_git_branch(Some("(detached HEAD)")), None);
    assert_eq!(
        visible_git_branch(Some("feature/session-detail")),
        Some("feature/session-detail".to_string())
    );
}

#[test]
fn thinking_and_tools_keep_independent_expansion_state() {
    let mut thinking = HashSet::new();
    let mut tools = HashSet::new();

    toggle_expanded_row(&mut thinking, 4);
    assert!(thinking.contains(&4));
    assert!(!tools.contains(&4));

    toggle_expanded_row(&mut tools, 4);
    assert!(thinking.contains(&4));
    assert!(tools.contains(&4));

    toggle_expanded_row(&mut thinking, 4);
    assert!(!thinking.contains(&4));
    assert!(tools.contains(&4));
}

#[test]
fn tool_summaries_use_unicode_width_and_long_sections_are_marked() {
    let calls = vec![tool_call("Bash", "搜索中文项目路径")];
    match tool_cluster_heading(&calls) {
        ToolHeading::Single { name, argument } => {
            assert_eq!(name, "Bash");
            assert_eq!(argument.as_deref(), Some("搜索中文项目路径"));
        }
        other => panic!("unexpected heading {other:?}"),
    }

    let (shown, truncated) = clip_tool_text("abcdef", 3);
    assert_eq!(shown, "abc…");
    assert!(truncated);

    let (shown, truncated) = clip_tool_text("abc", 3);
    assert_eq!(shown, "abc");
    assert!(!truncated);
}

#[test]
fn tool_copy_source_preserves_edge_whitespace() {
    let original = "\n  result  \n";
    assert_eq!(non_blank_tool_text(original), Some(original));
    assert_eq!(non_blank_tool_text(" \n\t "), None);
}

#[test]
fn several_tool_calls_are_counted_and_named() {
    let calls = vec![tool_call("Read", "a"), tool_call("Edit", " "), tool_call("Bash", "ls")];
    match tool_cluster_heading(&calls) {
        ToolHeading::Several { count, names } => {
            assert_eq!(count, 3);
            assert_eq!(names, "Read · Edit · Bash");
        }
        other => panic!("unexpected heading {other:?}"),
    }
    match tool_cluster_heading(&vec![tool_call("Edit", " \t")]) {
        ToolHeading::Single { argument, .. } => assert_eq!(argument, None),
        other => panic!("unexpected heading {other:?}"),
    }
    assert!(matches!(tool_cluster_heading(&Vec::new()), ToolHeading::NoCalls));
    let (shown, truncated) = clip_tool_text("搜索中文", 2);
    assert_eq!(shown, "搜索…");
    assert!(truncated);
}

#[test]
fn image_probe_accepts_small_matching_images_and_rejects_mime_mismatch() {
    let bytes = png(2, 3);
    let probe = image_probe(&bytes, ImageFormat::Png).expect("safe png");
    assert_eq!(probe.dims, (2, 3));
    assert_eq!(probe.decoded_pixels, 6);
    assert!(image_probe(&bytes, ImageFormat::Jpeg).is_none());
}

#[test]
fn image_probe_rejects_oversized_and_unknown_images() {
    assert!(image_probe(&png(8193, 1), ImageFormat::Png).is_none());
    assert!(image_probe(b"not an image", ImageFormat::Png).is_none());
    assert!(image_probe(&png(1, 1), ImageFormat::Svg).is_none());
    let probe = image_probe(&png(8192, 1), ImageFormat::Png).expect("wide png");
    assert_eq!(probe.decoded_pixels, 8192);
}

fn message(seq: i64, kind: MessageKind, text: &str) -> TranscriptMessage {
    TranscriptMessage {
        seq,
        role: MessageRole::Assistant,
        kind,
        text: text.to_string(),
        tool_calls: Vec::new(),
        thinking: None,
        images: Vec::new(),
    }
}

#[test]
fn detail_load_reports_missing_adapter_and_parse_reason() {
    // No adapter owns the session's path.
    let missing = load_visible_transcript("Codex", None).expect_err("adapter should be missing");
    assert!(missing.contains("No Codex adapter"));

    // The adapter's parser failed on the fixture transcript.
    let parse_error = load_visible_transcript("Codex", Some(Err("broken transcript fixture".to_string())))
        .expect_err("fixture transcript should fail to parse");
    assert!(parse_error.contains("broken transcript fixture"));
}

#[test]
fn loaded_transcripts_keep_only_shown_messages() {
    let parsed = vec![
        message(1, MessageKind::Message, "hello"),
        message(2, MessageKind::Meta, "bookkeeping"),
        message(3, MessageKind::Message, "  \n "),
        message(4, MessageKind::CompactSummary, ""),
    ];
    let shown = load_visible_transcript("Codex", Some(Ok(parsed))).unwrap();
    assert_eq!(shown.iter().map(|m| m.seq).collect::<Vec<_>>(), vec![1, 4]);
}
