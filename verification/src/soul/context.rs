//! The conversation context: the history the model sees, the checkpoints a
//! turn can be sent back to, and the records the context file holds. The
//! file itself is read and written by the caller; each operation here says
//! which record it adds, and restoring applies the records read.
use crate::error::KimiCliError;
use crate::soul::compaction::tokens_for;
use crate::soul::message::{messages_view, parts_view, text_parts, Message, MessageView};
use crate::text::join;
use vstd::prelude::*;
use vstd::utf8::encode_utf8;

verus! {

/// One line of a context file.
#[derive(Debug, Clone)]
pub enum ContextRecord {
    /// The system prompt (`_system_prompt`), when the line carries one.
    SystemPrompt { content: Option<String> },
    /// A token count (`_usage`), when the line carries one.
    Usage { token_count: Option<u64> },
    /// A checkpoint marker (`_checkpoint`) and its number, when it has one.
    Checkpoint { id: Option<u64> },
    /// A message of the conversation.
    Message { message: Message },
}

/// A context record as a value.
pub enum RecordView {
    SystemPrompt(Option<Seq<char>>),
    Usage(Option<u64>),
    Checkpoint(Option<u64>),
    Message(MessageView),
}

pub open spec fn record_view(r: ContextRecord) -> RecordView {
    match r {
        ContextRecord::SystemPrompt { content } => RecordView::SystemPrompt(match content {
            Some(c) => Some(c@),
            None => None,
        }),
        ContextRecord::Usage { token_count } => RecordView::Usage(token_count),
        ContextRecord::Checkpoint { id } => RecordView::Checkpoint(id),
        ContextRecord::Message { message } => RecordView::Message(message@),
    }
}

/// Records as values; a line that could not be read is `None`.
pub open spec fn records_view(rs: Seq<Option<ContextRecord>>) -> Seq<Option<RecordView>> {
    rs.map_values(|r: Option<ContextRecord>| match r {
        Some(x) => Some(record_view(x)),
        None => None,
    })
}

/// What a context knows, as a value: its history, token count, pending
/// token estimate, next checkpoint number and system prompt.
pub struct ContextView {
    pub history: Seq<MessageView>,
    pub token_count: nat,
    pub pending: nat,
    pub next_checkpoint_id: nat,
    pub system_prompt: Option<Seq<char>>,
}

/// The empty context a restore starts from.
pub open spec fn empty_view() -> ContextView {
    ContextView {
        history: Seq::empty(),
        token_count: 0,
        pending: 0,
        next_checkpoint_id: 0,
        system_prompt: None,
    }
}

/// What a record read back does to a context.
pub open spec fn apply_record(s: ContextView, r: RecordView) -> ContextView {
    match r {
        RecordView::SystemPrompt(c) => ContextView { system_prompt: c, ..s },
        RecordView::Usage(n) => ContextView {
            token_count: (match n {
                Some(k) => k as usize,
                None => 0usize,
            }) as nat,
            pending: 0,
            ..s
        },
        RecordView::Checkpoint(id) => ContextView {
            next_checkpoint_id: ((match id {
                Some(k) => k as usize,
                None => 0usize,
            }) + 1) as nat,
            ..s
        },
        RecordView::Message(m) => ContextView { history: s.history.push(m), ..s },
    }
}

/// Applies the records in order, skipping the unreadable ones.
pub open spec fn apply_records(s: ContextView, rs: Seq<Option<RecordView>>) -> ContextView
    decreases rs.len(),
{
    if rs.len() == 0 {
        s
    } else {
        let t = apply_records(s, rs.drop_last());
        match rs.last() {
            Some(r) => apply_record(t, r),
            None => t,
        }
    }
}

/// Whether a checkpoint record's number leaves room for the next one.
pub open spec fn checkpoint_fits(r: Option<RecordView>) -> bool {
    r matches Some(RecordView::Checkpoint(id)) ==> (match id {
        Some(k) => k as usize,
        None => 0usize,
    }) < usize::MAX
}

/// The tokens a text is estimated to take: a quarter of its UTF-8 bytes,
/// rounded up.
pub open spec fn text_tokens(s: Seq<char>) -> nat {
    tokens_for(encode_utf8(s).len())
}

/// The tokens a message adds to the estimate: those of its text parts,
/// joined by spaces.
pub open spec fn message_tokens(m: MessageView) -> nat {
    text_tokens(join(text_parts(m.content), " "@))
}

/// An operation that appends a record to the context file.
pub enum ContextOp {
    Append(MessageView),
    Usage(usize),
    Checkpoint,
}

/// What an operation does to the context.
pub open spec fn op_effect(s: ContextView, op: ContextOp) -> ContextView {
    match op {
        ContextOp::Append(m) => ContextView {
            history: s.history.push(m),
            pending: s.pending + message_tokens(m),
            ..s
        },
        ContextOp::Usage(n) => ContextView { token_count: n as nat, pending: 0, ..s },
        ContextOp::Checkpoint => ContextView { next_checkpoint_id: s.next_checkpoint_id + 1, ..s },
    }
}

/// The record an operation appends to the file.
pub open spec fn op_record(s: ContextView, op: ContextOp) -> RecordView {
    match op {
        ContextOp::Append(m) => RecordView::Message(m),
        ContextOp::Usage(n) => RecordView::Usage(Some(n as u64)),
        ContextOp::Checkpoint => RecordView::Checkpoint(Some(s.next_checkpoint_id as u64)),
    }
}

/// Whether the operation can be carried out: the counters it moves stay
/// within `usize`.
pub open spec fn op_fits(s: ContextView, op: ContextOp) -> bool {
    match op {
        ContextOp::Append(m) => s.pending + message_tokens(m) <= usize::MAX,
        ContextOp::Usage(n) => true,
        ContextOp::Checkpoint => s.next_checkpoint_id < usize::MAX,
    }
}

/// Carrying out operations in turn: the context reached and the records
/// appended.
pub open spec fn run_ops(s: ContextView, ops: Seq<ContextOp>) -> (ContextView, Seq<Option<RecordView>>)
    decreases ops.len(),
{
    if ops.len() == 0 {
        (s, Seq::empty())
    } else {
        let (t, rs) = run_ops(s, ops.drop_last());
        (op_effect(t, ops.last()), rs.push(Some(op_record(t, ops.last()))))
    }
}

pub open spec fn ops_fit(s: ContextView, ops: Seq<ContextOp>) -> bool
    decreases ops.len(),
{
    ops.len() == 0 || (ops_fit(s, ops.drop_last()) && op_fits(run_ops(s, ops.drop_last()).0, ops.last()))
}

/// What a context keeps in its file: everything but the pending estimate.
pub open spec fn durable(s: ContextView) -> (Seq<MessageView>, nat, nat, Option<Seq<char>>) {
    (s.history, s.token_count, s.next_checkpoint_id, s.system_prompt)
}

/// Reading back the record an operation wrote does what the operation did,
/// to what the file keeps.
pub proof fn lemma_record_replays(s: ContextView, t: ContextView, op: ContextOp)
    requires
        durable(t) == durable(s),
        op_fits(s, op),
    ensures
        durable(apply_record(t, op_record(s, op))) == durable(op_effect(s, op)),
{
}

/// A context restored from the records its operations appended holds what
/// the context held after them (its history, token count, next checkpoint
/// number and system prompt), whatever the pending estimate.
pub proof fn lemma_restore_replays(s: ContextView, t: ContextView, ops: Seq<ContextOp>)
    requires
        durable(t) == durable(s),
        ops_fit(s, ops),
    ensures
        durable(apply_records(t, run_ops(s, ops).1)) == durable(run_ops(s, ops).0),
    decreases ops.len(),
{
    if ops.len() > 0 {
        lemma_restore_replays(s, t, ops.drop_last());
        let (u, rs) = run_ops(s, ops.drop_last());
        let full = run_ops(s, ops).1;
        assert(full.drop_last() =~= rs);
        lemma_record_replays(u, apply_records(t, rs), ops.last());
    }
}

/// The conversation context backed by a JSONL file.
pub struct Context {
    history: Vec<Message>,
    token_count: usize,
    pending_token_estimate: usize,
    next_checkpoint_id: usize,
    system_prompt: Option<String>,
    file_backend: String,
    restored: bool,
}

impl Context {
    /// What the context knows, as a value.
    pub closed spec fn view_of(&self) -> ContextView {
        ContextView {
            history: messages_view(self.history@),
            token_count: self.token_count as nat,
            pending: self.pending_token_estimate as nat,
            next_checkpoint_id: self.next_checkpoint_id as nat,
            system_prompt: match self.system_prompt {
                Some(p) => Some(p@),
                None => None,
            },
        }
    }

    /// Whether the context was restored from its file.
    pub closed spec fn is_restored(&self) -> bool {
        self.restored
    }

    /// The file the context is kept in.
    pub closed spec fn file_spec(&self) -> Seq<char> {
        self.file_backend@
    }

    /// An empty context kept in the given file.
    pub fn new(file_backend: String) -> (r: Self)
        ensures
            r.view_of() == empty_view(),
            !r.is_restored(),
            r.file_spec() == file_backend@,
    {
        let history: Vec<Message> = Vec::new();
        assert(messages_view(history@) =~= Seq::<MessageView>::empty());
        Context {
            history,
            token_count: 0,
            pending_token_estimate: 0,
            next_checkpoint_id: 0,
            system_prompt: None,
            file_backend,
            restored: false,
        }
    }

    /// The file the context is kept in.
    pub fn file_backend(&self) -> (r: &str)
        ensures
            r@ == self.file_spec(),
    {
        self.file_backend.as_str()
    }

    /// The message history.
    pub fn history(&self) -> (r: &[Message])
        ensures
            messages_view(r@) == self.view_of().history,
    {
        self.history.as_slice()
    }

    /// The system prompt, if one was written or restored.
    pub fn system_prompt(&self) -> (r: Option<&str>)
        ensures
            match self.view_of().system_prompt {
                Some(p) => r matches Some(s) && s@ == p,
                None => r is None,
            },
    {
        match &self.system_prompt {
            Some(p) => Some(p.as_str()),
            None => None,
        }
    }

    /// The number the next checkpoint gets.
    pub fn next_checkpoint_id(&self) -> (r: usize)
        ensures
            r == self.view_of().next_checkpoint_id,
    {
        self.next_checkpoint_id
    }

    /// The last token count recorded.
    pub fn token_count(&self) -> (r: usize)
        ensures
            r == self.view_of().token_count,
    {
        self.token_count
    }

    /// The token count with the estimate of what was added since.
    pub fn token_count_with_pending(&self) -> (r: usize)
        requires
            self.view_of().token_count + self.view_of().pending <= usize::MAX,
        ensures
            r == self.view_of().token_count + self.view_of().pending,
    {
        self.token_count + self.pending_token_estimate
    }

    fn reset(&mut self)
        ensures
            final(self).view_of() == empty_view(),
            final(self).file_spec() == old(self).file_spec(),
            final(self).is_restored() == old(self).is_restored(),
    {
        self.history = Vec::new();
        assert(messages_view(self.history@) =~= Seq::<MessageView>::empty());
        self.token_count = 0;
        self.pending_token_estimate = 0;
        self.next_checkpoint_id = 0;
        self.system_prompt = None;
    }

    fn apply(&mut self, r: &ContextRecord)
        requires
            checkpoint_fits(Some(record_view(*r))),
        ensures
            final(self).view_of() == apply_record(old(self).view_of(), record_view(*r)),
            final(self).file_spec() == old(self).file_spec(),
            final(self).is_restored() == old(self).is_restored(),
    {
        match r {
            ContextRecord::SystemPrompt { content } => {
                self.system_prompt = match content {
                    Some(c) => Some(c.clone()),
                    None => None,
                };
            },
            ContextRecord::Usage { token_count } => {
                self.token_count = match token_count {
                    Some(k) => *k as usize,
                    None => 0,
                };
                self.pending_token_estimate = 0;
            },
            ContextRecord::Checkpoint { id } => {
                let k: usize = match id {
                    Some(k) => *k as usize,
                    None => 0,
                };
                self.next_checkpoint_id = k + 1;
            },
            ContextRecord::Message { message } => {
                let ghost before = self.history@;
                self.history.push(message.copy());
                assert(messages_view(self.history@) =~= messages_view(before).push(message@));
            },
        }
    }

    /// Restores the context from the records of its file (none when there
    /// is no file), in order, skipping the unreadable ones. Refused once the
    /// context was restored and holds messages.
    pub fn restore(&mut self, records: &Vec<Option<ContextRecord>>) -> (r: Result<(), KimiCliError>)
        requires
            forall|i: int| 0 <= i < records@.len() ==> checkpoint_fits(#[trigger] records_view(records@)[i]),
        ensures
            old(self).is_restored() && old(self).view_of().history.len() > 0 ==> {
                &&& r matches Err(KimiCliError::Generic(m)) && m@
                    == "Context has already been modified; restore is not allowed."@
                &&& final(self).view_of() == old(self).view_of()
                &&& final(self).is_restored()
            },
            !(old(self).is_restored() && old(self).view_of().history.len() > 0) ==> {
                &&& r is Ok
                &&& final(self).view_of() == apply_records(empty_view(), records_view(records@))
                &&& final(self).is_restored()
            },
            final(self).file_spec() == old(self).file_spec(),
    {
        if self.restored && self.history.len() > 0 {
            return Err(KimiCliError::Generic("Context has already been modified; restore is not allowed.".to_string()));
        }
        self.reset();
        let ghost rv = records_view(records@);
        let mut i: usize = 0;
        while i < records.len()
            invariant
                i <= records.len(),
                rv == records_view(records@),
                forall|j: int| 0 <= j < records@.len() ==> checkpoint_fits(#[trigger] records_view(records@)[j]),
                self.view_of() == apply_records(empty_view(), rv.subrange(0, i as int)),
                self.file_spec() == old(self).file_spec(),
            decreases records.len() - i,
        {
            assert(rv.subrange(0, i + 1).drop_last() =~= rv.subrange(0, i as int));
            match &records[i] {
                Some(rec) => {
                    assert(checkpoint_fits(rv[i as int]));
                    self.apply(rec);
                },
                None => {},
            }
            i += 1;
        }
        assert(rv.subrange(0, records.len() as int) =~= rv);
        self.restored = true;
        Ok(())
    }

    /// Adds a message to the history and to the pending token estimate;
    /// the record to append to the file is returned.
    pub fn append_message(&mut self, message: &Message) -> (r: ContextRecord)
        requires
            old(self).view_of().pending + message_tokens(message@) <= usize::MAX,
        ensures
            final(self).view_of() == op_effect(old(self).view_of(), ContextOp::Append(message@)),
            record_view(r) == op_record(old(self).view_of(), ContextOp::Append(message@)),
            final(self).file_spec() == old(self).file_spec(),
            final(self).is_restored() == old(self).is_restored(),
    {
        let text = message.extract_text(" ");
        let n = text.as_str().as_bytes().len();
        let est: usize = if n % 4 == 0 {
            n / 4
        } else {
            n / 4 + 1
        };
        self.pending_token_estimate = self.pending_token_estimate + est;
        let ghost before = self.history@;
        self.history.push(message.copy());
        assert(messages_view(self.history@) =~= messages_view(before).push(message@));
        ContextRecord::Message { message: message.copy() }
    }

    /// Records a token count, clearing the pending estimate; the record to
    /// append is returned.
    pub fn update_token_count(&mut self, count: usize) -> (r: ContextRecord)
        ensures
            final(self).view_of() == op_effect(old(self).view_of(), ContextOp::Usage(count)),
            record_view(r) == op_record(old(self).view_of(), ContextOp::Usage(count)),
            final(self).file_spec() == old(self).file_spec(),
            final(self).is_restored() == old(self).is_restored(),
    {
        self.token_count = count;
        self.pending_token_estimate = 0;
        ContextRecord::Usage { token_count: Some(count as u64) }
    }

    /// Marks a checkpoint: it takes the next number; the record to append
    /// is returned.
    pub fn checkpoint(&mut self) -> (r: ContextRecord)
        requires
            old(self).view_of().next_checkpoint_id < usize::MAX,
        ensures
            final(self).view_of() == op_effect(old(self).view_of(), ContextOp::Checkpoint),
            record_view(r) == op_record(old(self).view_of(), ContextOp::Checkpoint),
            final(self).file_spec() == old(self).file_spec(),
            final(self).is_restored() == old(self).is_restored(),
    {
        let id = self.next_checkpoint_id;
        self.next_checkpoint_id = id + 1;
        ContextRecord::Checkpoint { id: Some(id as u64) }
    }

    /// Sets the system prompt; the record to put first in the file is
    /// returned.
    pub fn write_system_prompt(&mut self, prompt: &str) -> (r: ContextRecord)
        ensures
            final(self).view_of() == (ContextView { system_prompt: Some(prompt@), ..old(self).view_of() }),
            record_view(r) == RecordView::SystemPrompt(Some(prompt@)),
            final(self).file_spec() == old(self).file_spec(),
            final(self).is_restored() == old(self).is_restored(),
    {
        self.system_prompt = Some(prompt.to_string());
        ContextRecord::SystemPrompt { content: Some(prompt.to_string()) }
    }

    /// Forgets everything; the file is to be set aside by the caller.
    pub fn clear(&mut self)
        ensures
            final(self).view_of() == empty_view(),
            !final(self).is_restored(),
            final(self).file_spec() == old(self).file_spec(),
    {
        self.reset();
        self.restored = false;
    }

    /// Sends the context back to a checkpoint, given the records of its
    /// file: the records up to and including that checkpoint's marker are
    /// kept and the context is restored from them. Returns how many records
    /// the file keeps, or `None` (nothing changes) when the checkpoint is
    /// not in the file.
    pub fn revert_to_checkpoint(&mut self, records: &Vec<Option<ContextRecord>>, checkpoint_id: usize) -> (r: Option<usize>)
        requires
            forall|i: int| 0 <= i < records@.len() ==> checkpoint_fits(#[trigger] records_view(records@)[i]),
        ensures
            match checkpoint_position(records_view(records@), checkpoint_id) {
                None => r is None && final(self).view_of() == old(self).view_of() && final(self).is_restored()
                    == old(self).is_restored(),
                Some(k) => {
                    &&& r == Some((k + 1) as usize)
                    &&& final(self).view_of() == apply_records(
                        empty_view(),
                        records_view(records@).subrange(0, k + 1),
                    )
                    &&& final(self).is_restored()
                },
            },
            final(self).file_spec() == old(self).file_spec(),
    {
        let ghost rv = records_view(records@);
        let mut k: usize = 0;
        let mut found: Option<usize> = None;
        while k < records.len()
            invariant_except_break
                found is None,
            invariant
                k <= records.len(),
                rv == records_view(records@),
                forall|j: int| 0 <= j < k ==> !is_checkpoint(#[trigger] rv[j], checkpoint_id),
            ensures
                match found {
                    Some(p) => p < records.len() && is_checkpoint(rv[p as int], checkpoint_id) && forall|j: int|
                        0 <= j < p ==> !is_checkpoint(#[trigger] rv[j], checkpoint_id),
                    None => forall|j: int| 0 <= j < records.len() ==> !is_checkpoint(#[trigger] rv[j], checkpoint_id),
                },
            decreases records.len() - k,
        {
            let hit = match &records[k] {
                Some(ContextRecord::Checkpoint { id: Some(x) }) => *x as usize == checkpoint_id,
                _ => false,
            };
            assert(hit == is_checkpoint(rv[k as int], checkpoint_id));
            if hit {
                found = Some(k);
                break;
            }
            k += 1;
        }
        proof {
            lemma_checkpoint_position(
                rv,
                checkpoint_id,
                match found {
                    Some(p) => Some(p as int),
                    None => None,
                },
            );
        }
        match found {
            None => None,
            Some(p) => {
                let mut kept: Vec<Option<ContextRecord>> = Vec::new();
                let mut j: usize = 0;
                while j <= p
                    invariant
                        j <= p + 1,
                        p < records.len(),
                        rv == records_view(records@),
                        records_view(kept@) == rv.subrange(0, j as int),
                    decreases p + 1 - j,
                {
                    let ghost before = kept@;
                    kept.push(match &records[j] {
                        Some(x) => Some(copy_record(x)),
                        None => None,
                    });
                    assert(records_view(kept@) =~= records_view(before).push(rv[j as int]));
                    assert(rv.subrange(0, j + 1) =~= rv.subrange(0, j as int).push(rv[j as int]));
                    j += 1;
                }
                assert forall|i: int| 0 <= i < kept@.len() implies checkpoint_fits(
                    #[trigger] records_view(kept@)[i],
                ) by {
                    assert(records_view(kept@)[i] == rv[i]);
                }
                self.restored = false;
                let _ = self.restore(&kept);
                Some(p + 1)
            },
        }
    }
}

/// Whether a record is the marker of the given checkpoint.
pub open spec fn is_checkpoint(r: Option<RecordView>, checkpoint_id: usize) -> bool {
    r matches Some(RecordView::Checkpoint(Some(x))) && x as usize == checkpoint_id
}

/// The position of the first marker of the given checkpoint.
pub open spec fn checkpoint_position(rs: Seq<Option<RecordView>>, checkpoint_id: usize) -> Option<int> {
    if exists|i: int| 0 <= i < rs.len() && is_checkpoint(rs[i], checkpoint_id) {
        Some(
            choose|i: int|
                0 <= i < rs.len() && is_checkpoint(rs[i], checkpoint_id) && forall|j: int|
                    0 <= j < i ==> !is_checkpoint(rs[j], checkpoint_id),
        )
    } else {
        None
    }
}

proof fn lemma_checkpoint_position(rs: Seq<Option<RecordView>>, checkpoint_id: usize, found: Option<int>)
    requires
        match found {
            Some(p) => 0 <= p < rs.len() && is_checkpoint(rs[p], checkpoint_id) && forall|j: int|
                0 <= j < p ==> !is_checkpoint(#[trigger] rs[j], checkpoint_id),
            None => forall|j: int| 0 <= j < rs.len() ==> !is_checkpoint(#[trigger] rs[j], checkpoint_id),
        },
    ensures
        checkpoint_position(rs, checkpoint_id) == found,
{
    if let Some(p) = found {
        let q = choose|i: int|
            0 <= i < rs.len() && is_checkpoint(rs[i], checkpoint_id) && forall|j: int|
                0 <= j < i ==> !is_checkpoint(rs[j], checkpoint_id);
        assert(q == p) by {
            if q < p {
                assert(!is_checkpoint(rs[q], checkpoint_id));
            } else if q > p {
                assert(!is_checkpoint(rs[p], checkpoint_id));
            }
        }
    }
}

proof fn lemma_run_ops_prefix(s: ContextView, ops: Seq<ContextOp>, k: int)
    requires
        0 <= k <= ops.len(),
    ensures
        run_ops(s, ops).1.len() == ops.len(),
        run_ops(s, ops.take(k)).1 == run_ops(s, ops).1.take(k),
        ops_fit(s, ops) ==> ops_fit(s, ops.take(k)),
    decreases ops.len(),
{
    if ops.len() > 0 {
        lemma_run_ops_prefix(s, ops.drop_last(), if k == ops.len() { k - 1 } else { k });
        if k == ops.len() {
            assert(ops.take(k) =~= ops);
        } else {
            assert(ops.take(k) =~= ops.drop_last().take(k));
            assert(run_ops(s, ops).1.take(k) =~= run_ops(s, ops.drop_last()).1.take(k));
        }
    } else {
        assert(ops.take(k) =~= ops);
    }
}

/// From a fresh context, each checkpoint record carries a number below the
/// next one, and the next number only grows.
proof fn lemma_checkpoint_ids_below(ops: Seq<ContextOp>)
    requires
        ops_fit(empty_view(), ops),
    ensures
        forall|j: int| 0 <= j < ops.len() ==> match #[trigger] run_ops(empty_view(), ops).1[j] {
            Some(RecordView::Checkpoint(Some(x))) => (x as int) < run_ops(empty_view(), ops).0.next_checkpoint_id,
            _ => true,
        },
        run_ops(empty_view(), ops).0.next_checkpoint_id < usize::MAX + 1,
    decreases ops.len(),
{
    if ops.len() > 0 {
        let prev = ops.drop_last();
        lemma_checkpoint_ids_below(prev);
        lemma_run_ops_prefix(empty_view(), prev, prev.len() as int);
        let (t, rs) = run_ops(empty_view(), prev);
        let full = run_ops(empty_view(), ops);
        assert(full.1 == rs.push(Some(op_record(t, ops.last()))));
        assert(full.0 == op_effect(t, ops.last()));
        assert(full.0.next_checkpoint_id >= t.next_checkpoint_id);
        assert forall|j: int| 0 <= j < ops.len() implies match #[trigger] full.1[j] {
            Some(RecordView::Checkpoint(Some(x))) => (x as int) < full.0.next_checkpoint_id,
            _ => true,
        } by {
            if j < prev.len() {
                assert(full.1[j] == rs[j]);
            }
        }
    }
}

/// Going back to a checkpoint taken during a session gives back what the
/// context held just after it was taken: its marker is the first record of
/// its number, and the records up to it restore that context.
pub proof fn lemma_revert_restores_checkpoint(ops: Seq<ContextOp>, p: int)
    requires
        ops_fit(empty_view(), ops),
        0 <= p < ops.len(),
        ops[p] is Checkpoint,
    ensures
        ({
            let rs = run_ops(empty_view(), ops).1;
            let c = run_ops(empty_view(), ops.take(p)).0.next_checkpoint_id;
            &&& checkpoint_position(rs, c as usize) == Some(p)
            &&& durable(apply_records(empty_view(), rs.subrange(0, p + 1))) == durable(
                run_ops(empty_view(), ops.take(p + 1)).0,
            )
        }),
{
    let rs = run_ops(empty_view(), ops).1;
    lemma_run_ops_prefix(empty_view(), ops, p);
    lemma_run_ops_prefix(empty_view(), ops, p + 1);
    let before = ops.take(p);
    let upto = ops.take(p + 1);
    assert(upto.drop_last() =~= before);
    assert(upto.last() == ops[p]);
    let t = run_ops(empty_view(), before).0;
    let c = t.next_checkpoint_id;
    lemma_checkpoint_ids_below(before);
    assert(ops_fit(empty_view(), upto));
    assert(c < usize::MAX);
    // The marker at `p` carries `c`.
    assert(run_ops(empty_view(), upto).1 == rs.take(p + 1));
    assert(rs[p] == run_ops(empty_view(), upto).1[p]);
    assert(rs[p] == Some(RecordView::Checkpoint(Some(c as u64))));
    assert(is_checkpoint(rs[p], c as usize));
    // Every earlier marker carries a smaller number.
    assert forall|j: int| 0 <= j < p implies !is_checkpoint(#[trigger] rs[j], c as usize) by {
        assert(run_ops(empty_view(), before).1 == rs.take(p));
        assert(rs[j] == run_ops(empty_view(), before).1[j]);
    }
    lemma_checkpoint_position(rs, c as usize, Some(p));
    // The records up to it restore what the operations up to it made.
    assert(rs.subrange(0, p + 1) =~= run_ops(empty_view(), upto).1);
    lemma_restore_replays(empty_view(), empty_view(), upto);
}

fn copy_record(r: &ContextRecord) -> (c: ContextRecord)
    ensures
        record_view(c) == record_view(*r),
{
    match r {
        ContextRecord::SystemPrompt { content } => ContextRecord::SystemPrompt {
            content: match content {
                Some(s) => Some(s.clone()),
                None => None,
            },
        },
        ContextRecord::Usage { token_count } => ContextRecord::Usage { token_count: *token_count },
        ContextRecord::Checkpoint { id } => ContextRecord::Checkpoint { id: *id },
        ContextRecord::Message { message } => ContextRecord::Message { message: message.copy() },
    }
}

} // verus!
