//! The session reader: which messages it shows, where a search jump lands,
//! which rows are expanded, and which reader a finished load belongs to.
use vstd::prelude::*;
use vstd::string::{StrSliceExecFns, StringExecFns};
use std::collections::HashSet;
use crate::images::ImageSlot;
use crate::model::SessionMeta;
use crate::transcript::{jump_landing, jump_landing_at, TranscriptMessage};
use crate::text::{text_eq, 
    chars_of, eq_ignore_ascii_case, eq_ignore_ascii_case_chars, spec_trim, strip, strip_text, trim_text,
    Trimmed,
};

verus! {

broadcast use {vstd::std_specs::hash::group_hash_axioms, vstd::string::group_string_axioms};

/// A branch name that says nothing: empty, or a detached head.
pub open spec fn meaningless_branch(n: Seq<char>) -> bool {
    ||| n.len() == 0
    ||| eq_ignore_ascii_case(n, seq!['h', 'e', 'a', 'd'])
    ||| eq_ignore_ascii_case(n, seq!['d', 'e', 't', 'a', 'c', 'h', 'e', 'd'])
    ||| eq_ignore_ascii_case(
        n,
        seq!['d', 'e', 't', 'a', 'c', 'h', 'e', 'd', ' ', 'h', 'e', 'a', 'd'],
    )
}

/// The branch shown for a session: the recorded branch without surrounding
/// whitespace, unless it is empty or names a detached head (with or
/// without parentheses).
pub open spec fn spec_visible_branch(branch: Seq<char>) -> Option<Seq<char>> {
    let trimmed = spec_trim(branch);
    if meaningless_branch(spec_trim(strip(trimmed, Trimmed::Parentheses))) {
        None
    } else {
        Some(trimmed)
    }
}

/// The branch to show for a session, if any.
pub fn visible_git_branch(branch: Option<&str>) -> (res: Option<String>)
    ensures
        match branch {
            None => res is None,
            Some(b) => match res {
                Some(r) => spec_visible_branch(b@) == Some(r@),
                None => spec_visible_branch(b@) is None,
            },
        },
{
    let branch = match branch {
        Some(b) => b,
        None => {
            return None;
        },
    };
    let trimmed = trim_text(branch);
    let normalized = chars_of(trim_text(strip_text(trimmed, Trimmed::Parentheses)));
    let head = vec!['h', 'e', 'a', 'd'];
    let detached = vec!['d', 'e', 't', 'a', 'c', 'h', 'e', 'd'];
    let detached_head = vec!['d', 'e', 't', 'a', 'c', 'h', 'e', 'd', ' ', 'h', 'e', 'a', 'd'];
    if normalized.len() == 0 || eq_ignore_ascii_case_chars(&normalized, &head) || eq_ignore_ascii_case_chars(
        &normalized,
        &detached,
    ) || eq_ignore_ascii_case_chars(&normalized, &detached_head) {
        None
    } else {
        Some(trimmed.to_owned())
    }
}

/// Expands the row `ix` when it is collapsed and collapses it otherwise.
pub fn toggle_expanded_row(rows: &mut HashSet<usize>, ix: usize)
    ensures
        final(rows)@ == (if old(rows)@.contains(ix) {
            old(rows)@.remove(ix)
        } else {
            old(rows)@.insert(ix)
        }),
{
    if !rows.insert(ix) {
        rows.remove(&ix);
    }
}

/// Toggling a row twice leaves the expanded rows as they were, and a
/// toggle changes no other row.
pub proof fn law_toggle_twice_restores(rows: Set<usize>, ix: usize, other: usize)
    requires
        other != ix,
    ensures
        ({
            let once = if rows.contains(ix) {
                rows.remove(ix)
            } else {
                rows.insert(ix)
            };
            let twice = if once.contains(ix) {
                once.remove(ix)
            } else {
                once.insert(ix)
            };
            &&& twice == rows
            &&& once.contains(ix) != rows.contains(ix)
            &&& once.contains(other) == rows.contains(other)
        }),
{
    let once = if rows.contains(ix) {
        rows.remove(ix)
    } else {
        rows.insert(ix)
    };
    let twice = if once.contains(ix) {
        once.remove(ix)
    } else {
        once.insert(ix)
    };
    assert(twice =~= rows);
}

} // verus!

verus! {

/// An action on the enlarged image.
#[derive(Clone, Copy, Debug, PartialEq, Eq, Structural)]
pub enum ImageAction {
    Copy,
    Save,
}

/// The notice that an action on an image succeeded; `generation`
/// tells notices apart, so that an old notice's timer cannot clear a
/// newer one.
#[derive(Clone, Copy, Debug, PartialEq, Eq, Structural)]
pub struct ImageActionFeedback {
    /// The message of the image.
    pub message: usize,
    /// The image within the message.
    pub image: usize,
    pub action: ImageAction,
    pub generation: u64,
}

/// The reader of one session.
pub struct DetailState {
    /// Identifies the load that fills this reader.
    pub load_id: u64,
    pub meta: SessionMeta,
    /// Where the session's data lives, resolved apart from the transcript;
    /// `None` while pending.
    pub source_path: Option<String>,
    pub loading: bool,
    /// Why the transcript could not be loaded.
    pub error: Option<String>,
    /// The shown messages.
    pub transcript: Vec<TranscriptMessage>,
    /// The image slots of each shown message.
    pub images: Vec<Vec<ImageSlot>>,
    /// Expanded tool clusters, by message index.
    pub expanded_tools: HashSet<usize>,
    /// Expanded thinking panels, by message index; apart from the tool
    /// clusters so that expanding one does not expand the other.
    pub expanded_thinking: HashSet<usize>,
    /// The message a search jumped to; kept highlighted.
    pub jump_seq: Option<i64>,
    /// The image shown enlarged: (message, image).
    pub zoom: Option<(usize, usize)>,
    /// The brief notice of a copy of the enlarged image.
    pub copy_feedback: Option<ImageActionFeedback>,
    /// The brief notice of a save of the enlarged image.
    pub save_feedback: Option<ImageActionFeedback>,
}

impl DetailState {
    /// A reader of `meta` waiting for load `load_id`, to jump to `jump_seq`
    /// once loaded.
    pub fn loading(meta: SessionMeta, jump_seq: Option<i64>, load_id: u64) -> (res: Self)
        ensures
            res.load_id == load_id,
            res.meta == meta,
            res.loading,
            res.source_path is None,
            res.error is None,
            res.transcript@.len() == 0,
            res.images@.len() == 0,
            res.expanded_tools@.is_empty(),
            res.expanded_thinking@.is_empty(),
            res.jump_seq == jump_seq,
            res.zoom is None,
            res.copy_feedback is None,
            res.save_feedback is None,
    {
        DetailState {
            load_id,
            meta,
            source_path: None,
            loading: true,
            error: None,
            transcript: Vec::new(),
            images: Vec::new(),
            expanded_tools: HashSet::new(),
            expanded_thinking: HashSet::new(),
            jump_seq,
            zoom: None,
            copy_feedback: None,
            save_feedback: None,
        }
    }

    /// Takes in the finished load of the transcript: the shown messages
    /// with their image slots, or why they could not be read. A pending
    /// search jump lands on the first shown message at or after it, and
    /// the jump is set to that message so that the highlight and the
    /// scroll position agree; when no such message is left the reader
    /// stays at the end. Returns the message to scroll to.
    pub fn finish_load(&mut self, result: Result<(Vec<TranscriptMessage>, Vec<Vec<ImageSlot>>), String>) -> (scroll_to: Option<usize>)
        ensures
            !final(self).loading,
            final(self).zoom is None,
            final(self).load_id == old(self).load_id,
            final(self).meta == old(self).meta,
            final(self).source_path == old(self).source_path,
            final(self).expanded_tools == old(self).expanded_tools,
            final(self).expanded_thinking == old(self).expanded_thinking,
            final(self).copy_feedback == old(self).copy_feedback,
            final(self).save_feedback == old(self).save_feedback,
            match result {
                Ok((messages, images)) => {
                    &&& final(self).transcript == messages
                    &&& final(self).images == images
                    &&& final(self).error is None
                    &&& match old(self).jump_seq {
                        Some(seq) => match scroll_to {
                            Some(i) => jump_landing_at(messages@, seq, i as int)
                                && final(self).jump_seq == Some(messages@[i as int].seq),
                            None => final(self).jump_seq == old(self).jump_seq && forall|j: int|
                                0 <= j < messages@.len() ==> #[trigger] messages@[j].seq < seq,
                        },
                        None => scroll_to is None && final(self).jump_seq is None,
                    }
                },
                Err(e) => {
                    &&& final(self).transcript@.len() == 0
                    &&& final(self).images@.len() == 0
                    &&& final(self).error == Some(e)
                    &&& final(self).jump_seq == old(self).jump_seq
                    &&& scroll_to is None
                },
            },
    {
        self.loading = false;
        match result {
            Ok((messages, images)) => {
                let mut scroll_to: Option<usize> = None;
                match self.jump_seq {
                    Some(seq) => {
                        match jump_landing(&messages, seq) {
                            Some(ix) => {
                                self.jump_seq = Some(messages[ix].seq);
                                scroll_to = Some(ix);
                            },
                            None => {},
                        }
                    },
                    None => {},
                }
                self.transcript = messages;
                self.images = images;
                self.zoom = None;
                self.error = None;
                scroll_to
            },
            Err(error) => {
                self.transcript = Vec::new();
                self.images = Vec::new();
                self.zoom = None;
                self.error = Some(error);
                None
            },
        }
    }
}

/// The reader that load `load_id` of session `key` belongs to: the open
/// reader, or the one set aside while cleanup previews another, whichever
/// started that load. Two readers may load the same session at once; an
/// answer for a load no reader started any more is dropped.
pub fn detail_for_load<'a>(
    current: &'a mut Option<DetailState>,
    saved: &'a mut Option<DetailState>,
    key: &str,
    load_id: u64,
) -> (res: Option<&'a mut DetailState>)
    ensures
        ({
            let cur_hit = *old(current) matches Some(d) && d.meta.key@ == key@ && d.load_id == load_id;
            let saved_hit = *old(saved) matches Some(d) && d.meta.key@ == key@ && d.load_id == load_id;
            if cur_hit {
                &&& res is Some
                &&& *res->0 == (*old(current))->0
                &&& *final(current) == Some(*final(res->0))
                &&& *final(saved) == *old(saved)
            } else if saved_hit {
                &&& res is Some
                &&& *res->0 == (*old(saved))->0
                &&& *final(saved) == Some(*final(res->0))
                &&& *final(current) == *old(current)
            } else {
                &&& res is None
                &&& *final(current) == *old(current)
                &&& *final(saved) == *old(saved)
            }
        }),
{
    let cur_hit = match &*current {
        Some(d) => text_eq(d.meta.key.as_str(), key) && d.load_id == load_id,
        None => false,
    };
    if cur_hit {
        return current.as_mut();
    }
    let saved_hit = match &*saved {
        Some(d) => text_eq(d.meta.key.as_str(), key) && d.load_id == load_id,
        None => false,
    };
    if saved_hit {
        return saved.as_mut();
    }
    None
}

} // verus!

verus! {

/// Which copy of the session's data the copied path names.
#[derive(Clone, Copy, Debug, PartialEq, Eq, Structural)]
pub enum CopyPathHint {
    /// The session's own file.
    SessionFile,
    /// A database the agent shares between sessions.
    SharedDatabase,
    /// The local copy of a remote session.
    LocalCopy,
    /// The local copy of a remote shared database.
    LocalCopyOfSharedDatabase,
}

/// What the reader's header shows.
#[derive(Clone, Debug)]
pub struct DetailHeader {
    pub copy_hint: CopyPathHint,
    /// The path can be copied: it is resolved and not empty.
    pub can_copy_path: bool,
    /// Moving to the trash is offered: the session is local and no cleanup
    /// preview is open.
    pub can_delete: bool,
    /// Offer to go back to the cleanup list.
    pub back_to_cleanup: bool,
    /// `None` when the project is not known.
    pub project_path: Option<String>,
    pub message_count: Option<i64>,
    pub tokens: Option<i64>,
    pub created_at: Option<i64>,
    pub updated_at: Option<i64>,
    pub branch: Option<String>,
}

pub open spec fn spec_copy_hint(remote: bool, elsewhere: bool) -> CopyPathHint {
    match (remote, elsewhere) {
        (false, false) => CopyPathHint::SessionFile,
        (false, true) => CopyPathHint::SharedDatabase,
        (true, false) => CopyPathHint::LocalCopy,
        (true, true) => CopyPathHint::LocalCopyOfSharedDatabase,
    }
}

pub open spec fn optional_text_view(t: Option<String>) -> Option<Seq<char>> {
    match t {
        Some(s) => Some(s@),
        None => None,
    }
}

impl DetailState {
    /// The data path differs from the session's file: the session lives in
    /// a shared database.
    pub open spec fn spec_path_elsewhere(&self) -> bool {
        self.source_path matches Some(p) && p@ != self.meta.file_path@
    }

    /// The path the copy action puts on the clipboard: the resolved data
    /// path, once it is known and not empty.
    pub fn copy_path_target(&self) -> (res: Option<String>)
        ensures
            match self.source_path {
                Some(p) => if p@.len() > 0 {
                    res matches Some(r) && r@ == p@
                } else {
                    res is None
                },
                None => res is None,
            },
    {
        match &self.source_path {
            Some(p) => if p.as_str().unicode_len() > 0 {
                Some(p.clone())
            } else {
                None
            },
            None => None,
        }
    }

    /// The header of the reader; `cleanup_open` tells whether it previews a
    /// cleanup candidate, `preview_updated_at` the candidate's last update.
    pub fn header(&self, cleanup_open: bool, preview_updated_at: Option<i64>) -> (res: DetailHeader)
        ensures
            res.copy_hint == spec_copy_hint(self.meta.host@.len() > 0, self.spec_path_elsewhere()),
            res.can_copy_path == (self.source_path matches Some(p) && p@.len() > 0),
            res.can_delete == (self.meta.host@.len() == 0 && !cleanup_open),
            res.back_to_cleanup == cleanup_open,
            optional_text_view(res.project_path) == (if self.meta.project_path@.len() == 0 {
                None
            } else {
                Some(self.meta.project_path@)
            }),
            res.message_count == (if self.meta.message_count > 0 {
                Some(self.meta.message_count)
            } else {
                None
            }),
            res.tokens == self.meta.tokens_used,
            res.created_at == (if self.meta.created_at > 0 {
                Some(self.meta.created_at)
            } else {
                None
            }),
            ({
                let updated = match preview_updated_at {
                    Some(t) => t,
                    None => self.meta.updated_at,
                };
                res.updated_at == (if updated > 0 {
                    Some(updated)
                } else {
                    None
                })
            }),
            optional_text_view(res.branch) == match self.meta.git_branch {
                Some(b) => spec_visible_branch(b@),
                None => None,
            },
    {
        let remote = self.meta.host.as_str().unicode_len() > 0;
        let elsewhere = match &self.source_path {
            Some(p) => !text_eq(p.as_str(), self.meta.file_path.as_str()),
            None => false,
        };
        let copy_hint = match (remote, elsewhere) {
            (false, false) => CopyPathHint::SessionFile,
            (false, true) => CopyPathHint::SharedDatabase,
            (true, false) => CopyPathHint::LocalCopy,
            (true, true) => CopyPathHint::LocalCopyOfSharedDatabase,
        };
        let can_copy_path = match &self.source_path {
            Some(p) => p.as_str().unicode_len() > 0,
            None => false,
        };
        let project_path = if self.meta.project_path.as_str().unicode_len() == 0 {
            None
        } else {
            Some(self.meta.project_path.clone())
        };
        let updated = match preview_updated_at {
            Some(t) => t,
            None => self.meta.updated_at,
        };
        let branch = match &self.meta.git_branch {
            Some(b) => visible_git_branch(Some(b.as_str())),
            None => None,
        };
        DetailHeader {
            copy_hint,
            can_copy_path,
            can_delete: !remote && !cleanup_open,
            back_to_cleanup: cleanup_open,
            project_path,
            message_count: if self.meta.message_count > 0 {
                Some(self.meta.message_count)
            } else {
                None
            },
            tokens: self.meta.tokens_used,
            created_at: if self.meta.created_at > 0 {
                Some(self.meta.created_at)
            } else {
                None
            },
            updated_at: if updated > 0 {
                Some(updated)
            } else {
                None
            },
            branch,
        }
    }
}

} // verus!

verus! {

impl DetailState {
    /// Enlarges image `target`; notices of another image go.
    pub fn zoom_image(&mut self, target: (usize, usize))
        ensures
            final(self).zoom == Some(target),
            final(self).copy_feedback is None,
            final(self).save_feedback is None,
            final(self).meta == old(self).meta,
            final(self).load_id == old(self).load_id,
    {
        self.zoom = Some(target);
        self.copy_feedback = None;
        self.save_feedback = None;
    }

    /// Shows that `action` on image `target` succeeded, when that image is
    /// still the enlarged one. Returns the notice shown.
    pub fn show_action_success(&mut self, target: (usize, usize), action: ImageAction, generation: u64) -> (res: Option<ImageActionFeedback>)
        ensures
            old(self).zoom != Some(target) ==> res is None && *final(self) == *old(self),
            old(self).zoom == Some(target) ==> {
                let f = ImageActionFeedback { message: target.0, image: target.1, action, generation };
                &&& res == Some(f)
                &&& final(self).zoom == old(self).zoom
                &&& *final(self) == (DetailState {
                    copy_feedback: final(self).copy_feedback,
                    save_feedback: final(self).save_feedback,
                    ..*old(self)
                })
                &&& match action {
                    ImageAction::Copy => final(self).copy_feedback == Some(f)
                        && final(self).save_feedback == old(self).save_feedback,
                    ImageAction::Save => final(self).save_feedback == Some(f)
                        && final(self).copy_feedback == old(self).copy_feedback,
                }
            },
    {
        if self.zoom != Some(target) {
            return None;
        }
        let f = ImageActionFeedback { message: target.0, image: target.1, action, generation };
        match action {
            ImageAction::Copy => self.copy_feedback = Some(f),
            ImageAction::Save => self.save_feedback = Some(f),
        }
        Some(f)
    }

    /// The timer of notice `f` ran out: the notice goes, unless a newer one
    /// took its place.
    pub fn expire_action_feedback(&mut self, f: ImageActionFeedback)
        ensures
            final(self).copy_feedback == (if f.action == ImageAction::Copy && old(self).copy_feedback
                == Some(f) {
                None
            } else {
                old(self).copy_feedback
            }),
            final(self).save_feedback == (if f.action == ImageAction::Save && old(self).save_feedback
                == Some(f) {
                None
            } else {
                old(self).save_feedback
            }),
            final(self).zoom == old(self).zoom,
            *final(self) == (DetailState {
                copy_feedback: final(self).copy_feedback,
                save_feedback: final(self).save_feedback,
                ..*old(self)
            }),
    {
        match f.action {
            ImageAction::Copy => {
                if self.copy_feedback == Some(f) {
                    self.copy_feedback = None;
                }
            },
            ImageAction::Save => {
                if self.save_feedback == Some(f) {
                    self.save_feedback = None;
                }
            },
        }
    }

    /// Stars or unstars the session shown; returns the new state.
    pub fn toggle_favorite(&mut self) -> (res: bool)
        ensures
            res == !old(self).meta.favorite,
            final(self).meta == (SessionMeta { favorite: res, ..old(self).meta }),
    {
        let v = !self.meta.favorite;
        self.meta.favorite = v;
        v
    }

    /// Pins or unpins the session shown; returns the new state.
    pub fn toggle_pinned(&mut self) -> (res: bool)
        ensures
            res == !old(self).meta.pinned,
            final(self).meta == (SessionMeta { pinned: res, ..old(self).meta }),
    {
        let v = !self.meta.pinned;
        self.meta.pinned = v;
        v
    }
}

/// A notice outlives the timer of an older notice of the same action: the
/// older timer leaves the newer notice in place.
pub proof fn law_old_timer_keeps_new_notice(
    copy: Option<ImageActionFeedback>,
    older: ImageActionFeedback,
    newer: ImageActionFeedback,
)
    requires
        older.generation != newer.generation,
        copy == Some(newer),
    ensures
        (if older.action == ImageAction::Copy && copy == Some(older) {
            None
        } else {
            copy
        }) == Some(newer),
{
}

} // verus!
