//! The session and cleanup records the workbench reasons about, holding as
//! plain values what the index reports of each session.
use vstd::prelude::*;

verus! {

/// An agent, identified by its position in the list of supported agents.
pub type AgentId = u32;

/// What the index knows of one session.
#[derive(Clone, Debug)]
pub struct SessionMeta {
    /// Stable identity in the index: the agent's id, qualified by host.
    pub key: String,
    /// The agent's own session id.
    pub id: String,
    pub title: String,
    pub agent: AgentId,
    /// Remote host the session was copied from; empty for a local session.
    pub host: String,
    pub project_path: String,
    pub project_name: String,
    pub file_path: String,
    pub created_at: i64,
    pub updated_at: i64,
    pub message_count: i64,
    pub size_bytes: i64,
    pub git_branch: Option<String>,
    pub tokens_used: Option<i64>,
    pub favorite: bool,
    pub pinned: bool,
    pub archived: bool,
}

/// A session offered for cleanup, with the nested sessions deleted with it.
#[derive(Clone, Debug)]
pub struct CleanupCandidate {
    pub root: SessionMeta,
    /// The root and every nested session.
    pub sessions: Vec<SessionMeta>,
    /// The file locations moved to the trash.
    pub targets: Vec<String>,
    pub bytes: u64,
    pub prompts: i64,
    pub updated_at: i64,
}

/// A session that cannot be cleaned up, with the reason the engine gave.
#[derive(Clone, Debug)]
pub struct UnavailableSession {
    pub session: SessionMeta,
    pub sessions: Vec<SessionMeta>,
    pub reason: String,
    pub updated_at: i64,
}

/// Progress of moving one file location of a candidate to the trash.
#[derive(Clone, Debug)]
pub enum TargetStatus {
    Pending,
    Moving,
    Moved,
    Failed(String),
}

/// What happened to one candidate in a cleanup run.
#[derive(Clone, Debug)]
pub struct CleanupRecord {
    pub candidate: CleanupCandidate,
    pub targets: Vec<TargetStatus>,
    pub restored: bool,
    /// The index no longer lists the deleted sessions.
    pub indexed: bool,
    /// The engine can still put these files back (they sit in the trash).
    pub restorable: bool,
    pub error: Option<String>,
}

/// One cleanup run.
#[derive(Clone, Debug)]
pub struct CleanupBatch {
    pub id: i64,
    pub stamp: i64,
    pub finished: bool,
    pub records: Vec<CleanupRecord>,
}

impl TargetStatus {
    pub open spec fn spec_is_moved(self) -> bool {
        self is Moved
    }

    pub open spec fn spec_is_pending(self) -> bool {
        self is Pending
    }

    pub fn is_moved(&self) -> (res: bool)
        ensures
            res == self.spec_is_moved(),
    {
        match self {
            TargetStatus::Moved => true,
            _ => false,
        }
    }

    pub fn is_pending(&self) -> (res: bool)
        ensures
            res == self.spec_is_pending(),
    {
        match self {
            TargetStatus::Pending => true,
            _ => false,
        }
    }
}

} // verus!

verus! {

impl SessionMeta {
    /// A copy of this record.
    pub fn duplicate(&self) -> (res: SessionMeta)
        ensures
            res == *self,
    {
        let git_branch = match &self.git_branch {
            Some(b) => Some(b.clone()),
            None => None,
        };
        SessionMeta {
            key: self.key.clone(),
            id: self.id.clone(),
            title: self.title.clone(),
            agent: self.agent,
            host: self.host.clone(),
            project_path: self.project_path.clone(),
            project_name: self.project_name.clone(),
            file_path: self.file_path.clone(),
            created_at: self.created_at,
            updated_at: self.updated_at,
            message_count: self.message_count,
            size_bytes: self.size_bytes,
            git_branch,
            tokens_used: self.tokens_used,
            favorite: self.favorite,
            pinned: self.pinned,
            archived: self.archived,
        }
    }
}

/// A copy of a list of session records.
pub fn duplicate_sessions(list: &Vec<SessionMeta>) -> (res: Vec<SessionMeta>)
    ensures
        res@ == list@,
{
    let mut out: Vec<SessionMeta> = Vec::new();
    let mut i: usize = 0;
    while i < list.len()
        invariant
            i <= list.len(),
            out@ == list@.take(i as int),
        decreases list.len() - i,
    {
        out.push(list[i].duplicate());
        proof {
            assert(list@.take(i + 1 as int) =~= list@.take(i as int).push(list@[i as int]));
        }
        i += 1;
    }
    assert(list@.take(list@.len() as int) =~= list@);
    out
}

} // verus!

verus! {

/// A copy of a list of strings.
pub fn duplicate_strings(list: &Vec<String>) -> (res: Vec<String>)
    ensures
        res@ == list@,
{
    let mut out: Vec<String> = Vec::new();
    let mut i: usize = 0;
    while i < list.len()
        invariant
            i <= list.len(),
            out@ == list@.take(i as int),
        decreases list.len() - i,
    {
        out.push(list[i].clone());
        proof {
            assert(list@.take(i + 1 as int) =~= list@.take(i as int).push(list@[i as int]));
        }
        i += 1;
    }
    assert(list@.take(list@.len() as int) =~= list@);
    out
}

/// A copy of an optional string.
pub fn duplicate_text(t: &Option<String>) -> (res: Option<String>)
    ensures
        res == *t,
{
    match t {
        Some(s) => Some(s.clone()),
        None => None,
    }
}

impl TargetStatus {
    pub fn duplicate(&self) -> (res: TargetStatus)
        ensures
            res == *self,
    {
        match self {
            TargetStatus::Pending => TargetStatus::Pending,
            TargetStatus::Moving => TargetStatus::Moving,
            TargetStatus::Moved => TargetStatus::Moved,
            TargetStatus::Failed(e) => TargetStatus::Failed(e.clone()),
        }
    }
}

impl CleanupCandidate {
    /// `other` holds the same values as `self`.
    pub open spec fn same(self, other: CleanupCandidate) -> bool {
        &&& self.root == other.root
        &&& self.sessions@ == other.sessions@
        &&& self.targets@ == other.targets@
        &&& self.bytes == other.bytes
        &&& self.prompts == other.prompts
        &&& self.updated_at == other.updated_at
    }

    pub fn duplicate(&self) -> (res: CleanupCandidate)
        ensures
            res.same(*self),
    {
        CleanupCandidate {
            root: self.root.duplicate(),
            sessions: duplicate_sessions(&self.sessions),
            targets: duplicate_strings(&self.targets),
            bytes: self.bytes,
            prompts: self.prompts,
            updated_at: self.updated_at,
        }
    }
}

impl UnavailableSession {
    /// `other` holds the same values as `self`.
    pub open spec fn same(self, other: UnavailableSession) -> bool {
        &&& self.session == other.session
        &&& self.sessions@ == other.sessions@
        &&& self.reason == other.reason
        &&& self.updated_at == other.updated_at
    }

    pub fn duplicate(&self) -> (res: UnavailableSession)
        ensures
            res.same(*self),
    {
        UnavailableSession {
            session: self.session.duplicate(),
            sessions: duplicate_sessions(&self.sessions),
            reason: self.reason.clone(),
            updated_at: self.updated_at,
        }
    }
}

impl CleanupRecord {
    /// `other` holds the same values as `self`.
    pub open spec fn same(self, other: CleanupRecord) -> bool {
        &&& self.candidate.same(other.candidate)
        &&& self.targets@ == other.targets@
        &&& self.restored == other.restored
        &&& self.indexed == other.indexed
        &&& self.restorable == other.restorable
        &&& self.error == other.error
    }

    pub fn duplicate(&self) -> (res: CleanupRecord)
        ensures
            res.same(*self),
    {
        let mut targets: Vec<TargetStatus> = Vec::new();
        let mut i: usize = 0;
        while i < self.targets.len()
            invariant
                i <= self.targets.len(),
                targets@ == self.targets@.take(i as int),
            decreases self.targets.len() - i,
        {
            targets.push(self.targets[i].duplicate());
            proof {
                assert(self.targets@.take(i + 1 as int) =~= self.targets@.take(i as int).push(
                    self.targets@[i as int],
                ));
            }
            i += 1;
        }
        assert(self.targets@.take(self.targets@.len() as int) =~= self.targets@);
        CleanupRecord {
            candidate: self.candidate.duplicate(),
            targets,
            restored: self.restored,
            indexed: self.indexed,
            restorable: self.restorable,
            error: duplicate_text(&self.error),
        }
    }
}

impl CleanupBatch {
    /// `other` holds the same values as `self`.
    pub open spec fn same(self, other: CleanupBatch) -> bool {
        &&& self.id == other.id
        &&& self.stamp == other.stamp
        &&& self.finished == other.finished
        &&& self.records@.len() == other.records@.len()
        &&& forall|i: int| 0 <= i < self.records@.len() ==> (#[trigger] self.records@[i]).same(
            other.records@[i],
        )
    }

    pub fn duplicate(&self) -> (res: CleanupBatch)
        ensures
            res.same(*self),
    {
        let mut records: Vec<CleanupRecord> = Vec::new();
        let mut i: usize = 0;
        while i < self.records.len()
            invariant
                i <= self.records.len(),
                records@.len() == i,
                forall|k: int| 0 <= k < i ==> (#[trigger] records@[k]).same(self.records@[k]),
            decreases self.records.len() - i,
        {
            records.push(self.records[i].duplicate());
            i += 1;
        }
        CleanupBatch { id: self.id, stamp: self.stamp, finished: self.finished, records }
    }
}

} // verus!
