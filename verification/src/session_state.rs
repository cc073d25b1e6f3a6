//! Per-session state: approval settings, todo items, and what legacy
//! metadata adds to it.
use crate::text::{chars_of, eq_vec};
use vstd::prelude::*;

verus! {

/// Approval settings stored per session.
#[derive(Debug, Clone)]
pub struct ApprovalStateData {
    pub yolo: bool,
    pub auto_approve_actions: Vec<String>,
}

impl Default for ApprovalStateData {
    fn default() -> (r: Self)
        ensures
            !r.yolo,
            r.auto_approve_actions@.len() == 0,
    {
        ApprovalStateData { yolo: false, auto_approve_actions: Vec::new() }
    }
}

/// Status of a todo item.
#[derive(Debug, Clone, Copy, PartialEq, Eq, Structural)]
pub enum TodoStatus {
    Pending,
    InProgress,
    Done,
}

impl Default for TodoStatus {
    fn default() -> (r: Self)
        ensures
            r == TodoStatus::Pending,
    {
        TodoStatus::Pending
    }
}

impl TodoStatus {
    /// The status's name.
    pub fn to_string(&self) -> (r: String)
        ensures
            r@ == (match *self {
                TodoStatus::Pending => "pending"@,
                TodoStatus::InProgress => "in_progress"@,
                TodoStatus::Done => "done"@,
            }),
    {
        match self {
            TodoStatus::Pending => "pending".to_string(),
            TodoStatus::InProgress => "in_progress".to_string(),
            TodoStatus::Done => "done".to_string(),
        }
    }
}

/// A single todo item persisted in session state.
#[derive(Debug, Clone)]
pub struct TodoItemState {
    pub title: String,
    pub status: TodoStatus,
}

/// Persistent per-session state. The two timestamps are held as the bits of
/// their `f64` values (`f64::to_bits`): the library only keeps and copies
/// them.
#[derive(Debug, Clone)]
pub struct SessionState {
    pub version: u32,
    pub approval: ApprovalStateData,
    pub additional_dirs: Vec<String>,
    pub custom_title: Option<String>,
    pub title_generated: bool,
    pub title_generate_attempts: u32,
    pub plan_mode: bool,
    pub plan_session_id: Option<String>,
    pub plan_slug: Option<String>,
    pub archived: bool,
    pub archived_at: Option<u64>,
    pub auto_archive_exempt: bool,
    pub wire_mtime: Option<u64>,
    pub todos: Vec<TodoItemState>,
}

impl Default for SessionState {
    fn default() -> (r: Self)
        ensures
            r.version == 1,
            !r.approval.yolo,
            r.approval.auto_approve_actions@.len() == 0,
            r.additional_dirs@.len() == 0,
            r.custom_title is None,
            !r.title_generated,
            r.title_generate_attempts == 0,
            !r.plan_mode,
            r.plan_session_id is None,
            r.plan_slug is None,
            !r.archived,
            r.archived_at is None,
            !r.auto_archive_exempt,
            r.wire_mtime is None,
            r.todos@.len() == 0,
    {
        SessionState {
            version: 1,
            approval: ApprovalStateData::default(),
            additional_dirs: Vec::new(),
            custom_title: None,
            title_generated: false,
            title_generate_attempts: 0,
            plan_mode: false,
            plan_session_id: None,
            plan_slug: None,
            archived: false,
            archived_at: None,
            auto_archive_exempt: false,
            wire_mtime: None,
            todos: Vec::new(),
        }
    }
}

/// What a legacy `metadata.json` says, field by field: a field is `None`
/// when it is missing or of another JSON type. Timestamps are `f64` bits.
#[derive(Debug, Clone)]
pub struct LegacyMetadata {
    pub title: Option<String>,
    pub title_generated: Option<bool>,
    pub title_generate_attempts: Option<u64>,
    pub archived: Option<bool>,
    pub archived_at: Option<u64>,
    pub auto_archive_exempt: Option<bool>,
    pub wire_mtime: Option<u64>,
}

/// What a migration from legacy metadata did.
#[derive(Debug, Clone, Copy, PartialEq, Eq, Structural)]
pub enum LegacyMigration {
    /// Some field was taken over; the state should be saved.
    Migrated,
    /// Nothing was taken over.
    NoChange,
    /// There was no legacy metadata to read.
    Skip,
}

/// Whether a legacy title is worth keeping.
pub open spec fn useful_title(t: Seq<char>) -> bool {
    t.len() > 0 && t != "Untitled"@
}

/// `new` is `old` with the legacy metadata taken over: each field the state
/// does not have yet (no custom title, a flag not set, no attempts, no
/// timestamp) takes the legacy value when it has one (a title that is not
/// empty or `Untitled`, a flag that is true, a positive count truncated to
/// 32 bits, any timestamp); the rest of the state is kept. `changed` tells
/// whether any field was taken.
pub open spec fn migrated(old: SessionState, data: LegacyMetadata, new: SessionState, changed: bool) -> bool {
    let take_title = old.custom_title is None && (data.title matches Some(t) && useful_title(t@));
    let take_generated = !old.title_generated && data.title_generated == Some(true);
    let take_attempts = old.title_generate_attempts == 0 && (data.title_generate_attempts matches Some(n) && n > 0);
    let take_archived = !old.archived && data.archived == Some(true);
    let take_archived_at = old.archived_at is None && data.archived_at is Some;
    let take_exempt = !old.auto_archive_exempt && data.auto_archive_exempt == Some(true);
    let take_mtime = old.wire_mtime is None && data.wire_mtime is Some;
    &&& new.custom_title == (if take_title { data.title } else { old.custom_title })
    &&& new.title_generated == (old.title_generated || take_generated)
    &&& new.title_generate_attempts == (if take_attempts {
        data.title_generate_attempts.unwrap() as u32
    } else {
        old.title_generate_attempts
    })
    &&& new.archived == (old.archived || take_archived)
    &&& new.archived_at == (if take_archived_at { data.archived_at } else { old.archived_at })
    &&& new.auto_archive_exempt == (old.auto_archive_exempt || take_exempt)
    &&& new.wire_mtime == (if take_mtime { data.wire_mtime } else { old.wire_mtime })
    &&& new.version == old.version
    &&& new.approval == old.approval
    &&& new.additional_dirs == old.additional_dirs
    &&& new.plan_mode == old.plan_mode
    &&& new.plan_session_id == old.plan_session_id
    &&& new.plan_slug == old.plan_slug
    &&& new.todos == old.todos
    &&& changed == (take_title || take_generated || take_attempts || take_archived || take_archived_at || take_exempt
        || take_mtime)
}

/// Takes over what legacy metadata knows that the state does not (see
/// `migrated`).
pub fn migrate_legacy_metadata(state: &mut SessionState, data: &LegacyMetadata) -> (r: LegacyMigration)
    ensures
        migrated(*old(state), *data, *final(state), r == LegacyMigration::Migrated),
        r != LegacyMigration::Skip,
{
    let mut changed = false;
    if state.custom_title.is_none() {
        if let Some(title) = &data.title {
            let t = chars_of(title.as_str());
            if t.len() > 0 && !eq_vec(&t, &chars_of("Untitled")) {
                state.custom_title = Some(title.clone());
                changed = true;
            }
        }
    }
    if !state.title_generated {
        if data.title_generated == Some(true) {
            state.title_generated = true;
            changed = true;
        }
    }
    if state.title_generate_attempts == 0 {
        if let Some(n) = data.title_generate_attempts {
            if n > 0 {
                state.title_generate_attempts = n as u32;
                changed = true;
            }
        }
    }
    if !state.archived {
        if data.archived == Some(true) {
            state.archived = true;
            changed = true;
        }
    }
    if state.archived_at.is_none() {
        if let Some(n) = data.archived_at {
            state.archived_at = Some(n);
            changed = true;
        }
    }
    if !state.auto_archive_exempt {
        if data.auto_archive_exempt == Some(true) {
            state.auto_archive_exempt = true;
            changed = true;
        }
    }
    if state.wire_mtime.is_none() {
        if let Some(n) = data.wire_mtime {
            state.wire_mtime = Some(n);
            changed = true;
        }
    }
    if changed {
        LegacyMigration::Migrated
    } else {
        LegacyMigration::NoChange
    }
}

/// Migrating twice takes nothing the second time: what was taken over is
/// no longer missing. (A count that truncates to zero stays missing.)
pub proof fn lemma_migration_settles(
    s0: SessionState,
    s1: SessionState,
    s2: SessionState,
    data: LegacyMetadata,
    c1: bool,
    c2: bool,
)
    requires
        migrated(s0, data, s1, c1),
        migrated(s1, data, s2, c2),
        !(s0.title_generate_attempts == 0 && (data.title_generate_attempts matches Some(n) && n > 0 && n as u32
            == 0)),
    ensures
        !c2,
        s2 == s1,
{
}

} // verus!
