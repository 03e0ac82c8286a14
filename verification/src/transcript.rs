//! The messages of a session transcript, and which of them the reader shows.
use vstd::prelude::*;
use vstd::string::{StrSliceExecFns, StringExecFns};
use crate::text::{chars_of, spec_trim, trim_text};

verus! {

broadcast use vstd::string::group_string_axioms;

#[derive(Clone, Copy, Debug, PartialEq, Eq, Structural)]
pub enum MessageRole {
    User,
    Assistant,
    System,
}

#[derive(Clone, Copy, Debug, PartialEq, Eq, Structural)]
pub enum MessageKind {
    /// An ordinary message.
    Message,
    /// Bookkeeping the agent recorded; never shown.
    Meta,
    /// The summary left where the agent compacted its context.
    CompactSummary,
}

/// One tool call of a message.
#[derive(Clone, Debug)]
pub struct ToolCallView {
    pub id: String,
    pub name: String,
    pub input_preview: String,
    pub input: Option<String>,
    pub output: Option<String>,
    pub is_error: bool,
}

/// An image attached to a message, placed at a byte offset of its text.
#[derive(Clone, Debug)]
pub struct ImageAttachment {
    pub media_type: String,
    pub bytes: Vec<u8>,
    pub text_offset: usize,
}

/// One message of a transcript.
#[derive(Clone, Debug)]
pub struct TranscriptMessage {
    /// Position in the session; search hits refer to it.
    pub seq: i64,
    pub role: MessageRole,
    pub kind: MessageKind,
    pub text: String,
    pub tool_calls: Vec<ToolCallView>,
    pub thinking: Option<String>,
    pub images: Vec<ImageAttachment>,
}

/// The reader shows a message unless it is bookkeeping or has nothing to
/// show: no text beyond whitespace, no tool call, no thinking and no image.
/// A compaction summary is always shown.
pub open spec fn message_shown(m: TranscriptMessage) -> bool {
    &&& m.kind != MessageKind::Meta
    &&& (spec_trim(m.text@).len() > 0 || m.tool_calls@.len() > 0 || m.thinking is Some
        || m.images@.len() > 0 || m.kind == MessageKind::CompactSummary)
}

/// The shown messages of `messages`, in order.
pub open spec fn shown_messages(messages: Seq<TranscriptMessage>) -> Seq<TranscriptMessage>
    decreases messages.len(),
{
    if messages.len() == 0 {
        messages
    } else {
        let prev = shown_messages(messages.drop_last());
        if message_shown(messages.last()) {
            prev.push(messages.last())
        } else {
            prev
        }
    }
}

/// Whether the reader shows `m`.
pub fn is_message_shown(m: &TranscriptMessage) -> (res: bool)
    ensures
        res == message_shown(*m),
{
    if m.kind == MessageKind::Meta {
        return false;
    }
    let text = trim_text(m.text.as_str());
    text.unicode_len() > 0 || m.tool_calls.len() > 0 || m.thinking.is_some() || m.images.len() > 0
        || m.kind == MessageKind::CompactSummary
}

/// The messages the reader shows, in transcript order.
pub fn visible_messages(messages: Vec<TranscriptMessage>) -> (res: Vec<TranscriptMessage>)
    ensures
        res@ == shown_messages(messages@),
{
    let ghost all = messages@;
    let n = messages.len();
    let mut rest = messages;
    let mut out: Vec<TranscriptMessage> = Vec::new();
    let mut i: usize = 0;
    while rest.len() > 0
        invariant
            i <= all.len(),
            all.len() == n,
            rest@ == all.subrange(i as int, all.len() as int),
            out@ == shown_messages(all.take(i as int)),
        decreases rest.len(),
    {
        let m = rest.remove(0);
        proof {
            let t = all.take(i + 1 as int);
            assert(t.drop_last() =~= all.take(i as int));
            assert(t.last() == all[i as int]);
            assert(rest@ =~= all.subrange(i + 1, all.len() as int));
        }
        if is_message_shown(&m) {
            out.push(m);
        }
        i += 1;
    }
    assert(all.take(all.len() as int) =~= all);
    out
}

/// What loading a transcript gives: `parsed` is the answer of the agent's
/// adapter (`None` when no adapter owns the session's path), `agent` the
/// agent's name for the error texts.
pub open spec fn spec_load_visible(
    agent: Seq<char>,
    parsed: Option<Result<Vec<TranscriptMessage>, String>>,
) -> Result<Seq<TranscriptMessage>, Seq<char>> {
    match parsed {
        None => Err("No "@ + agent + " adapter is available for this session path."@),
        Some(Err(e)) => Err("Failed to parse "@ + agent + " session data: "@ + e@),
        Some(Ok(messages)) => Ok(shown_messages(messages@)),
    }
}

/// The messages the reader shows of a session, from its adapter's answer,
/// or a readable reason why there are none.
pub fn load_visible_transcript(
    agent: &str,
    parsed: Option<Result<Vec<TranscriptMessage>, String>>,
) -> (res: Result<Vec<TranscriptMessage>, String>)
    ensures
        spec_load_visible(agent@, parsed) matches Ok(w) ==> res matches Ok(v) && v@ == w,
        spec_load_visible(agent@, parsed) matches Err(f) ==> res matches Err(e) && e@ == f,
{
    let ghost want = spec_load_visible(agent@, parsed);
    match parsed {
        None => {
            let mut e = String::from_str("No ");
            e.append(agent);
            e.append(" adapter is available for this session path.");
            assert(e@ =~= want->Err_0);
            Err(e)
        },
        Some(Err(error)) => {
            let mut e = String::from_str("Failed to parse ");
            e.append(agent);
            e.append(" session data: ");
            e.append(error.as_str());
            assert(e@ =~= want->Err_0);
            Err(e)
        },
        Some(Ok(messages)) => Ok(visible_messages(messages)),
    }
}

/// The first message at or after `seq`: a search hit on a message the
/// reader does not show lands on the next shown one.
pub open spec fn jump_landing_at(messages: Seq<TranscriptMessage>, seq: i64, i: int) -> bool {
    &&& 0 <= i < messages.len()
    &&& messages[i].seq >= seq
    &&& forall|j: int| 0 <= j < i ==> #[trigger] messages[j].seq < seq
}

/// Where a search jump to `seq` lands among the shown `messages`.
pub fn jump_landing(messages: &Vec<TranscriptMessage>, seq: i64) -> (res: Option<usize>)
    ensures
        match res {
            Some(i) => jump_landing_at(messages@, seq, i as int),
            None => forall|j: int| 0 <= j < messages@.len() ==> #[trigger] messages@[j].seq < seq,
        },
{
    let mut i: usize = 0;
    while i < messages.len()
        invariant
            i <= messages.len(),
            forall|j: int| 0 <= j < i ==> #[trigger] messages@[j].seq < seq,
        decreases messages.len() - i,
    {
        if messages[i].seq >= seq {
            return Some(i);
        }
        i += 1;
    }
    None
}

/// An assistant message with only thinking (no text, tool call or image)
/// is a step of the agent's run, not part of the conversation: the reader
/// leaves its row empty.
pub open spec fn spec_is_run_step(m: TranscriptMessage, images_shown: bool) -> bool {
    &&& m.role == MessageRole::Assistant
    &&& m.text@.len() == 0
    &&& m.tool_calls@.len() == 0
    &&& m.thinking is Some
    &&& !images_shown
}

pub fn is_run_step(m: &TranscriptMessage, images_shown: bool) -> (res: bool)
    ensures
        res == spec_is_run_step(*m, images_shown),
{
    m.role == MessageRole::Assistant && m.text.as_str().unicode_len() == 0 && m.tool_calls.len()
        == 0 && m.thinking.is_some() && !images_shown
}

/// The first `limit` characters of `text`, marked with an ellipsis when
/// characters were cut, and whether they were.
pub fn clip_tool_text(text: &str, limit: usize) -> (res: (String, bool))
    ensures
        res.1 == (text@.len() > limit),
        res.1 ==> res.0@ == text@.take(limit as int).push('…'),
        !res.1 ==> res.0@ == text@,
{
    let n = text.unicode_len();
    if n > limit {
        let mut shown = text.substring_char(0, limit).to_owned();
        let mark = "…";
        proof {
            reveal_strlit("…");
        }
        shown.append(mark);
        assert(shown@ =~= text@.take(limit as int).push('…'));
        (shown, true)
    } else {
        (text.to_owned(), false)
    }
}

/// Tool output that has something besides whitespace, kept as it is:
/// whitespace only decides whether there is content, and the output is
/// shown and copied with its edges intact.
pub fn non_blank_tool_text(text: &str) -> (res: Option<&str>)
    ensures
        spec_trim(text@).len() > 0 ==> res == Some(text),
        spec_trim(text@).len() == 0 ==> res is None,
{
    if trim_text(text).unicode_len() > 0 {
        Some(text)
    } else {
        None
    }
}

} // verus!

verus! {

/// Characters of a tool's input or output shown before it is cut.
pub const TOOL_TEXT_PREVIEW_LIMIT: usize = 600;

/// The calls of `calls` that failed.
pub open spec fn failed_count(calls: Seq<ToolCallView>) -> int
    decreases calls.len(),
{
    if calls.len() == 0 {
        0
    } else {
        failed_count(calls.drop_last()) + if calls.last().is_error {
            1int
        } else {
            0
        }
    }
}

/// How many tool calls failed.
pub fn failed_calls(calls: &Vec<ToolCallView>) -> (res: usize)
    ensures
        res == failed_count(calls@),
{
    let mut n: usize = 0;
    let mut i: usize = 0;
    while i < calls.len()
        invariant
            i <= calls.len(),
            n == failed_count(calls@.take(i as int)),
            n <= i,
        decreases calls.len() - i,
    {
        proof {
            let t = calls@.take(i + 1 as int);
            assert(t.drop_last() =~= calls@.take(i as int));
            assert(t.last() == calls@[i as int]);
        }
        if calls[i].is_error {
            n += 1;
        }
        i += 1;
    }
    assert(calls@.take(i as int) =~= calls@);
    n
}

/// The input section of an expanded tool call.
#[derive(Clone, Copy, Debug, PartialEq, Eq, Structural)]
pub enum InputSection {
    /// The full input.
    Input,
    /// Only the preview the agent recorded.
    Preview,
    Nothing,
}

/// Text with something besides whitespace.
pub open spec fn has_content(t: Seq<char>) -> bool {
    spec_trim(t).len() > 0
}

/// Which input an expanded call shows: the full input when it has content,
/// else the preview when that has, else none.
pub fn input_section(call: &ToolCallView) -> (res: InputSection)
    ensures
        res == (if call.input matches Some(i) && has_content(i@) {
            InputSection::Input
        } else if has_content(call.input_preview@) {
            InputSection::Preview
        } else {
            InputSection::Nothing
        }),
{
    let full = match &call.input {
        Some(i) => non_blank_tool_text(i.as_str()).is_some(),
        None => false,
    };
    if full {
        InputSection::Input
    } else if non_blank_tool_text(call.input_preview.as_str()).is_some() {
        InputSection::Preview
    } else {
        InputSection::Nothing
    }
}

/// Whether an expanded call shows its output: when it has content.
pub fn output_shown(call: &ToolCallView) -> (res: bool)
    ensures
        res == (call.output matches Some(o) && has_content(o@)),
{
    match &call.output {
        Some(o) => non_blank_tool_text(o.as_str()).is_some(),
        None => false,
    }
}

/// The heading of a cluster of tool calls, before its argument is clipped
/// to the width available.
#[derive(Clone, Debug)]
pub enum ToolHeading {
    NoCalls,
    /// One call: its name, and its input preview when it has content.
    Single { name: String, argument: Option<String> },
    /// Several calls: how many, and their names joined by " · ".
    Several { count: usize, names: String },
}

/// `names` of the calls joined by " · ".
pub open spec fn joined_names(calls: Seq<ToolCallView>) -> Seq<char>
    decreases calls.len(),
{
    if calls.len() <= 1 {
        if calls.len() == 1 {
            calls[0].name@
        } else {
            Seq::empty()
        }
    } else {
        joined_names(calls.drop_last()) + seq![' ', '·', ' '] + calls.last().name@
    }
}

pub fn tool_cluster_heading(calls: &Vec<ToolCallView>) -> (res: ToolHeading)
    ensures
        calls@.len() == 0 ==> res is NoCalls,
        calls@.len() == 1 ==> (res matches ToolHeading::Single { name, argument } && name@
            == calls@[0].name@ && (if has_content(calls@[0].input_preview@) {
            argument matches Some(a) && a@ == calls@[0].input_preview@
        } else {
            argument is None
        })),
        calls@.len() > 1 ==> (res matches ToolHeading::Several { count, names } && count
            == calls@.len() && names@ == joined_names(calls@)),
{
    if calls.len() == 0 {
        return ToolHeading::NoCalls;
    }
    if calls.len() == 1 {
        let only = &calls[0];
        let argument = if non_blank_tool_text(only.input_preview.as_str()).is_some() {
            Some(only.input_preview.clone())
        } else {
            None
        };
        return ToolHeading::Single { name: only.name.clone(), argument };
    }
    let mut names = calls[0].name.clone();
    let sep = " · ";
    proof {
        reveal_strlit(" · ");
    }
    let mut i: usize = 1;
    assert(calls@.take(1) =~= seq![calls@[0]]);
    while i < calls.len()
        invariant
            1 <= i <= calls.len(),
            sep@ == seq![' ', '·', ' '],
            names@ == joined_names(calls@.take(i as int)),
        decreases calls.len() - i,
    {
        proof {
            let t = calls@.take(i + 1 as int);
            assert(t.drop_last() =~= calls@.take(i as int));
            assert(t.last() == calls@[i as int]);
        }
        names.append(sep);
        names.append(calls[i].name.as_str());
        i += 1;
    }
    assert(calls@.take(i as int) =~= calls@);
    ToolHeading::Several { count: calls.len(), names }
}

} // verus!

verus! {

/// The reader shows what a message carries: bookkeeping is never shown,
/// and any other message with text beyond whitespace, a tool call,
/// thinking, an image, or a compaction summary is shown; a message with
/// none of these is not.
pub proof fn law_what_the_reader_shows(m: TranscriptMessage)
    ensures
        m.kind == MessageKind::Meta ==> !message_shown(m),
        m.kind != MessageKind::Meta && m.tool_calls@.len() > 0 ==> message_shown(m),
        m.kind != MessageKind::Meta && m.thinking is Some ==> message_shown(m),
        m.kind != MessageKind::Meta && m.images@.len() > 0 ==> message_shown(m),
        m.kind != MessageKind::Meta && spec_trim(m.text@).len() > 0 ==> message_shown(m),
        m.kind == MessageKind::CompactSummary ==> message_shown(m),
        m.kind == MessageKind::Message && spec_trim(m.text@).len() == 0 && m.tool_calls@.len() == 0
            && m.thinking is None && m.images@.len() == 0 ==> !message_shown(m),
{
}

/// Loading keeps exactly the shown messages, in transcript order: each
/// shown message of the transcript is among them, and each of them is a
/// shown message of the transcript.
pub proof fn law_shown_messages_kept(messages: Seq<TranscriptMessage>)
    ensures
        forall|i: int|
            0 <= i < messages.len() && message_shown(#[trigger] messages[i]) ==> shown_messages(
                messages,
            ).contains(messages[i]),
        forall|j: int|
            0 <= j < shown_messages(messages).len() ==> message_shown(
                #[trigger] shown_messages(messages)[j],
            ) && messages.contains(shown_messages(messages)[j]),
        shown_messages(messages).len() <= messages.len(),
    decreases messages.len(),
{
    if messages.len() > 0 {
        let prev = messages.drop_last();
        law_shown_messages_kept(prev);
        let sp = shown_messages(prev);
        let s = shown_messages(messages);
        assert forall|i: int|
            0 <= i < messages.len() && message_shown(#[trigger] messages[i]) implies s.contains(
            messages[i],
        ) by {
            if i < messages.len() - 1 {
                assert(prev[i] == messages[i]);
                let k = choose|k: int| 0 <= k < sp.len() && sp[k] == prev[i];
                if message_shown(messages.last()) {
                    assert(s[k] == sp[k]);
                } else {
                    assert(s[k] == sp[k]);
                }
            } else {
                assert(s[s.len() - 1] == messages.last());
            }
        }
        assert forall|j: int| 0 <= j < s.len() implies message_shown(#[trigger] s[j])
            && messages.contains(s[j]) by {
            if j < sp.len() {
                assert(s[j] == sp[j]);
                let k = choose|k: int| 0 <= k < prev.len() && prev[k] == sp[j];
                assert(messages[k] == prev[k]);
            } else {
                assert(s[j] == messages.last());
                assert(messages[messages.len() - 1] == messages.last());
            }
        }
    }
}

} // verus!
