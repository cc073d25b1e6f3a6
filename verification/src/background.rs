//! Background tasks: where their records and output logs live, chunks of
//! output, and how a task is summarized.
use crate::error::KimiCliError;
use crate::ids::{new_uuid_v4, uuid_v4_text};
use crate::soul::message::{ContentPart, PartKind, ToolReturnValue, part_view, parts_view};
use crate::text::{
    append_vec, chars_of, dec, dec_exec, join, join_exec, join_path, path_join, string_of, utf8_lossy,
    utf8_lossy_result,
};
use vstd::string::StringSliceAdditionalSpecFns;
use vstd::prelude::*;

verus! {

/// A chunk of a task's output.
#[derive(Debug, Clone)]
pub struct OutputChunk {
    pub text: String,
    pub offset: u64,
    pub next_offset: u64,
}

/// Persistent store for background task metadata, rooted at a directory.
#[derive(Debug, Clone)]
pub struct BackgroundTaskStore {
    pub root: String,
}

impl BackgroundTaskStore {
    pub fn new(root: &str) -> (r: Self)
        ensures
            r.root@ == root@,
    {
        BackgroundTaskStore { root: root.to_string() }
    }

    /// The file holding all task records.
    pub fn store_path(&self) -> (r: String)
        ensures
            r@ == path_join(self.root@, "background_tasks.json"@),
    {
        join_path(self.root.as_str(), "background_tasks.json")
    }

    /// The output log of a task: `logs/<id>.log` under the root.
    pub fn output_path(&self, id: &str) -> (r: String)
        ensures
            r@ == path_join(path_join(self.root@, "logs"@), id@ + ".log"@),
    {
        let logs = join_path(self.root.as_str(), "logs");
        let mut f = chars_of(id);
        append_vec(&mut f, &chars_of(".log"));
        join_path(logs.as_str(), string_of(&f).as_str())
    }
}

/// The status word of a task: running, completed (exit code 0) or failed.
pub open spec fn task_status(running: bool, exit_code: Option<i32>) -> Seq<char> {
    if running {
        "running"@
    } else if exit_code == Some(0i32) {
        "completed"@
    } else {
        "failed"@
    }
}

/// A human-readable summary of a task: `<id> [<status>] <command>`.
pub fn summarize(id: &str, running: bool, exit_code: Option<i32>, command: &str) -> (r: String)
    ensures
        r@ == id@ + " ["@ + task_status(running, exit_code) + "] "@ + command@,
{
    let status = if running {
        "running"
    } else if exit_code == Some(0i32) {
        "completed"
    } else {
        "failed"
    };
    let mut v = chars_of(id);
    append_vec(&mut v, &chars_of(" ["));
    append_vec(&mut v, &chars_of(status));
    append_vec(&mut v, &chars_of("] "));
    append_vec(&mut v, &chars_of(command));
    string_of(&v)
}

/// The error a spawn meets when `max` tasks are already running.
pub open spec fn too_many_tasks_text(max: nat) -> Seq<char> {
    "Maximum number of running background tasks ("@ + dec(max) + ") reached"@
}

/// Whether another task may start while `active` are running: not when the
/// limit `max` is reached.
pub fn admit_spawn(active: usize, max: usize) -> (r: Result<(), KimiCliError>)
    ensures
        r is Ok <==> active < max,
        r matches Err(e) ==> e matches KimiCliError::Generic(m) && m@ == too_many_tasks_text(max as nat),
{
    if active >= max {
        let mut m = chars_of("Maximum number of running background tasks (");
        append_vec(&mut m, &dec_exec(max));
        append_vec(&mut m, &chars_of(") reached"));
        Err(KimiCliError::Generic(string_of(&m)))
    } else {
        Ok(())
    }
}

/// The arguments a shell is started with to run `command`: `-command` for
/// PowerShell, `-c` otherwise.
pub fn shell_args(command: &str, is_powershell: bool) -> (r: Vec<String>)
    ensures
        r@.len() == 2,
        r@[0]@ == (if is_powershell { "-command"@ } else { "-c"@ }),
        r@[1]@ == command@,
{
    let mut v = Vec::new();
    if is_powershell {
        v.push("-command".to_string());
    } else {
        v.push("-c".to_string());
    }
    v.push(command.to_string());
    v
}

/// A fresh task identifier: the prefix, a hyphen and a random UUID.
pub fn generate_task_id(prefix: &str) -> (r: String)
    ensures
        exists|u: Seq<char>| uuid_v4_text(u) && r@ == prefix@ + "-"@ + u,
{
    let u = new_uuid_v4();
    let mut v = chars_of(prefix);
    append_vec(&mut v, &chars_of("-"));
    append_vec(&mut v, &chars_of(u.as_str()));
    string_of(&v)
}

/// A fresh identifier for a shell task: `bg-` and a random UUID.
pub fn new_task_id() -> (r: String)
    ensures
        exists|u: Seq<char>| uuid_v4_text(u) && r@ == "bg-"@ + u,
{
    let r = generate_task_id("bg");
    assert(forall|u: Seq<char>| "bg"@ + "-"@ + u =~= "bg-"@ + u) by {
        reveal_strlit("bg");
        reveal_strlit("-");
        reveal_strlit("bg-");
    }
    r
}

/// A fresh identifier for an agent task: `agent-<type>-` and a random UUID.
pub fn new_agent_task_id(requested_type: &str) -> (r: String)
    ensures
        exists|u: Seq<char>| uuid_v4_text(u) && r@ == "agent-"@ + requested_type@ + "-"@ + u,
{
    let mut p = chars_of("agent-");
    append_vec(&mut p, &chars_of(requested_type));
    let r = generate_task_id(string_of(&p).as_str());
    assert(forall|u: Seq<char>| ("agent-"@ + requested_type@) + "-"@ + u =~= "agent-"@ + requested_type@ + "-"@ + u);
    r
}

/// The command line an agent task is listed with.
pub fn agent_task_command(description: &str) -> (r: String)
    ensures
        r@ == "agent: "@ + description@,
{
    let mut v = chars_of("agent: ");
    append_vec(&mut v, &chars_of(description));
    string_of(&v)
}

/// The time limit an agent task runs under: the one asked for, at most an
/// hour.
pub fn agent_timeout(timeout_s: Option<u64>) -> (r: Option<u64>)
    ensures
        match timeout_s {
            Some(t) => r == Some(if t < 3600 { t } else { 3600u64 }),
            None => r is None,
        },
{
    match timeout_s {
        Some(t) => Some(if t < 3600 { t } else { 3600 }),
        None => None,
    }
}

/// What an agent task that ran out of time returns, and the failure it
/// records; `t` is the limit it ran under (see `agent_timeout`).
pub fn timed_out_result(t: u64) -> (r: (ToolReturnValue, String))
    requires
        t <= 3600,
    ensures
        r.0 matches ToolReturnValue::Error { error } && error@ == "Agent timed out after "@ + dec(t as nat) + "s."@,
        r.1@ == "Timed out after "@ + dec(t as nat) + "s"@,
{
    let n = dec_exec(t as usize);
    let mut e = chars_of("Agent timed out after ");
    append_vec(&mut e, &n);
    append_vec(&mut e, &chars_of("s."));
    let mut f = chars_of("Timed out after ");
    append_vec(&mut f, &n);
    append_vec(&mut f, &chars_of("s"));
    (ToolReturnValue::Error { error: string_of(&e) }, string_of(&f))
}

/// The outcome a finished agent task records.
#[derive(Debug, Clone)]
pub struct AgentTaskOutcome {
    pub stdout: String,
    pub stderr: String,
    pub exit_code: Option<i32>,
    pub failure_reason: Option<String>,
}

/// The texts of the text and thinking parts, in order.
pub open spec fn readable_parts(ps: Seq<(PartKind, Seq<char>)>) -> Seq<Seq<char>>
    decreases ps.len(),
{
    if ps.len() == 0 {
        Seq::empty()
    } else {
        let r = readable_parts(ps.drop_last());
        if ps.last().0 is Text || ps.last().0 is Think {
            r.push(ps.last().1)
        } else {
            r
        }
    }
}

/// What an agent task records from its result: an output or the readable
/// parts (joined by newlines) as standard output with exit code 0; an error
/// as standard error with exit code 1, kept as the failure unless one was
/// recorded already.
pub fn settle_agent_result(result: &ToolReturnValue, failure_reason: Option<String>) -> (r: AgentTaskOutcome)
    ensures
        match *result {
            ToolReturnValue::Success { output, .. } => {
                &&& r.stdout@ == output@
                &&& r.stderr@ == Seq::<char>::empty()
                &&& r.exit_code == Some(0i32)
                &&& r.failure_reason == failure_reason
            },
            ToolReturnValue::Parts { parts } => {
                &&& r.stdout@ == join(readable_parts(parts_view(parts@)), "\n"@)
                &&& r.stderr@ == Seq::<char>::empty()
                &&& r.exit_code == Some(0i32)
                &&& r.failure_reason == failure_reason
            },
            ToolReturnValue::Error { error } => {
                &&& r.stdout@ == Seq::<char>::empty()
                &&& r.stderr@ == error@
                &&& r.exit_code == Some(1i32)
                &&& match failure_reason {
                    Some(f) => r.failure_reason == Some(f),
                    None => r.failure_reason matches Some(f) && f@ == error@,
                }
            },
        },
{
    match result {
        ToolReturnValue::Success { output, .. } => AgentTaskOutcome {
            stdout: output.clone(),
            stderr: String::new(),
            exit_code: Some(0),
            failure_reason,
        },
        ToolReturnValue::Parts { parts } => {
            let ghost pv = parts_view(parts@);
            let mut texts: Vec<Vec<char>> = Vec::new();
            let mut i: usize = 0;
            while i < parts.len()
                invariant
                    i <= parts.len(),
                    pv == parts_view(parts@),
                    texts@.map_values(|t: Vec<char>| t@) == readable_parts(pv.subrange(0, i as int)),
                decreases parts.len() - i,
            {
                assert(pv.subrange(0, i + 1).drop_last() =~= pv.subrange(0, i as int));
                let ghost before = texts@;
                match &parts[i] {
                    ContentPart::Text { text } => {
                        texts.push(chars_of(text.as_str()));
                        assert(texts@.map_values(|t: Vec<char>| t@) =~= before.map_values(|t: Vec<char>| t@).push(text@));
                    },
                    ContentPart::Think { thought } => {
                        texts.push(chars_of(thought.as_str()));
                        assert(texts@.map_values(|t: Vec<char>| t@) =~= before.map_values(|t: Vec<char>| t@).push(thought@));
                    },
                    _ => {},
                }
                i += 1;
            }
            assert(pv.subrange(0, parts.len() as int) =~= pv);
            let out = join_exec(&texts, &chars_of("\n"));
            AgentTaskOutcome { stdout: string_of(&out), stderr: String::new(), exit_code: Some(0), failure_reason }
        },
        ToolReturnValue::Error { error } => {
            let reason = match failure_reason {
                Some(f) => Some(f),
                None => Some(error.clone()),
            };
            AgentTaskOutcome { stdout: String::new(), stderr: error.clone(), exit_code: Some(1), failure_reason: reason }
        },
    }
}

/// A task's whole output: standard output, then standard error after a
/// newline when there is any.
pub fn task_output(stdout: &str, stderr: &str) -> (r: String)
    ensures
        r@ == (if stderr@.len() == 0 { stdout@ } else { stdout@ + "\n"@ + stderr@ }),
{
    let e = chars_of(stderr);
    if e.len() == 0 {
        return stdout.to_string();
    }
    let mut v = chars_of(stdout);
    append_vec(&mut v, &chars_of("\n"));
    append_vec(&mut v, &e);
    string_of(&v)
}

/// The byte range of a chunk of `len` bytes of output: from `offset` (at
/// most the end) for at most `max_bytes` bytes.
pub open spec fn chunk_bounds(len: nat, offset: u64, max_bytes: nat) -> (nat, nat) {
    let start = if (offset as usize) < len { (offset as usize) as nat } else { len };
    let end = if start + max_bytes < len { start + max_bytes } else { len };
    (start, end)
}

/// A chunk of a task's output text (see `chunk_bounds`), decoded leniently;
/// `next_offset` is where the next chunk starts.
pub fn output_chunk(text: &str, offset: u64, max_bytes: usize) -> (r: OutputChunk)
    requires
        chunk_bounds(text.spec_bytes().len(), offset, 0).0 + max_bytes <= usize::MAX,
    ensures
        ({
            let (start, end) = chunk_bounds(text.spec_bytes().len(), offset, max_bytes as nat);
            &&& r.text@ == utf8_lossy_result(text.spec_bytes().subrange(start as int, end as int))
            &&& r.offset == offset
            &&& r.next_offset == end
        }),
{
    let bytes = text.as_bytes();
    let o = offset as usize;
    let start = if o < bytes.len() { o } else { bytes.len() };
    let end = if start + max_bytes < bytes.len() { start + max_bytes } else { bytes.len() };
    let chunk = utf8_lossy(&bytes[start..end]);
    OutputChunk { text: chunk, offset, next_offset: end as u64 }
}

/// What the store keeps of a task. `created_at` holds the bits of the
/// creation time in seconds (`f64::to_bits`).
#[derive(Debug, Clone)]
pub struct TaskRecord {
    pub id: String,
    pub command: String,
    pub created_at: u64,
    pub exit_code: Option<i32>,
    pub running: bool,
    pub failure_reason: Option<String>,
}

pub open spec fn record_ids_distinct(rs: Seq<TaskRecord>) -> bool {
    forall|a: int, b: int| 0 <= a < b < rs.len() ==> rs[a].id@ != rs[b].id@
}

/// The position of the record with the given id.
pub open spec fn record_pos(rs: Seq<TaskRecord>, id: Seq<char>) -> Option<int> {
    if exists|i: int| 0 <= i < rs.len() && rs[i].id@ == id {
        Some(choose|i: int| 0 <= i < rs.len() && rs[i].id@ == id)
    } else {
        None
    }
}

proof fn lemma_record_pos(rs: Seq<TaskRecord>, id: Seq<char>, i: int)
    requires
        record_ids_distinct(rs),
        0 <= i < rs.len(),
        rs[i].id@ == id,
    ensures
        record_pos(rs, id) == Some(i),
{
    let j = choose|j: int| 0 <= j < rs.len() && rs[j].id@ == id;
    assert(j == i) by {
        if j != i {
            if j < i {
                assert(rs[j].id@ != rs[i].id@);
            } else {
                assert(rs[i].id@ != rs[j].id@);
            }
        }
    }
}

fn copy_task_record(r: &TaskRecord) -> (c: TaskRecord)
    ensures
        c == *r,
{
    TaskRecord {
        id: r.id.clone(),
        command: r.command.clone(),
        created_at: r.created_at,
        exit_code: r.exit_code,
        running: r.running,
        failure_reason: match &r.failure_reason {
            Some(f) => Some(f.clone()),
            None => None,
        },
    }
}

fn find_record(records: &Vec<TaskRecord>, id: &str) -> (r: Option<usize>)
    requires
        record_ids_distinct(records@),
    ensures
        match r {
            Some(i) => i < records@.len() && record_pos(records@, id@) == Some(i as int),
            None => record_pos(records@, id@) is None,
        },
{
    let mut i: usize = 0;
    while i < records.len()
        invariant
            i <= records.len(),
            record_ids_distinct(records@),
            forall|j: int| 0 <= j < i ==> records@[j].id@ != id@,
        decreases records.len() - i,
    {
        if crate::text::eq_vec(&chars_of(records[i].id.as_str()), &chars_of(id)) {
            proof {
                lemma_record_pos(records@, id@, i as int);
            }
            return Some(i);
        }
        i += 1;
    }
    None
}

impl BackgroundTaskStore {
    /// Puts a task's record among the store's records (as loaded from its
    /// file), replacing the one with the same id.
    pub fn save_task(&self, records: &mut Vec<TaskRecord>, record: TaskRecord)
        requires
            record_ids_distinct(old(records)@),
        ensures
            record_ids_distinct(final(records)@),
            match record_pos(old(records)@, record.id@) {
                Some(i) => final(records)@ == old(records)@.update(i, record),
                None => final(records)@ == old(records)@.push(record),
            },
    {
        match find_record(records, record.id.as_str()) {
            Some(i) => {
                let ghost before = records@;
                records.set(i, record);
                assert forall|a: int, b: int| 0 <= a < b < records@.len() implies records@[a].id@
                    != records@[b].id@ by {
                    assert(records@[a].id@ == before[a].id@);
                    assert(records@[b].id@ == before[b].id@);
                }
            },
            None => {
                let ghost before = records@;
                let ghost rid = record.id@;
                records.push(record);
                assert forall|a: int, b: int| 0 <= a < b < records@.len() implies records@[a].id@
                    != records@[b].id@ by {
                    if b == before.len() {
                        assert(before[a].id@ != rid);
                    }
                }
            },
        }
    }

    /// Drops a task's record from the store's records.
    pub fn remove_task(&self, records: &mut Vec<TaskRecord>, id: &str)
        requires
            record_ids_distinct(old(records)@),
        ensures
            record_ids_distinct(final(records)@),
            final(records)@ == old(records)@.filter(|r: TaskRecord| r.id@ != id@),
    {
        let ghost keep = |r: TaskRecord| r.id@ != id@;
        let ghost orig = records@;
        let mut out: Vec<TaskRecord> = Vec::new();
        let mut i: usize = 0;
        while i < records.len()
            invariant
                i <= records.len(),
                records@ == orig,
                keep == (|r: TaskRecord| r.id@ != id@),
                out@ == orig.subrange(0, i as int).filter(keep),
                record_ids_distinct(orig),
                record_ids_distinct(out@),
                forall|a: int| 0 <= a < out@.len() ==> exists|j: int| 0 <= j < i && (#[trigger] out@[a]).id@
                    == orig[j].id@,
            decreases records.len() - i,
        {
            let ghost sub = orig.subrange(0, i + 1);
            assert(sub.drop_last() =~= orig.subrange(0, i as int));
            reveal(Seq::filter);
            if !crate::text::eq_vec(&chars_of(records[i].id.as_str()), &chars_of(id)) {
                let ghost before = out@;
                out.push(copy_task_record(&records[i]));
                assert(sub.filter(keep) == before.push(orig[i as int]));
                assert forall|a: int, b: int| 0 <= a < b < out@.len() implies out@[a].id@ != out@[b].id@ by {
                    if b == before.len() {
                        let j = choose|j: int| 0 <= j < i && before[a].id@ == orig[j].id@;
                        assert(orig[j].id@ != orig[i as int].id@);
                    }
                }
            } else {
                assert(sub.filter(keep) == out@);
            }
            i += 1;
        }
        assert(orig.subrange(0, orig.len() as int) =~= orig);
        *records = out;
    }
}

/// The record with the given id, if the store has one.
pub fn get_record<'a>(records: &'a Vec<TaskRecord>, id: &str) -> (r: Option<&'a TaskRecord>)
    requires
        record_ids_distinct(records@),
    ensures
        match record_pos(records@, id@) {
            Some(i) => r == Some(&records@[i]),
            None => r is None,
        },
{
    match find_record(records, id) {
        Some(i) => Some(&records[i]),
        None => None,
    }
}

/// A saved record is read back as saved.
pub proof fn lemma_saved_record_read_back(old_rs: Seq<TaskRecord>, new_rs: Seq<TaskRecord>, record: TaskRecord)
    requires
        record_ids_distinct(old_rs),
        record_ids_distinct(new_rs),
        match record_pos(old_rs, record.id@) {
            Some(i) => new_rs == old_rs.update(i, record),
            None => new_rs == old_rs.push(record),
        },
    ensures
        record_pos(new_rs, record.id@) matches Some(k) && new_rs[k] == record,
{
    match record_pos(old_rs, record.id@) {
        Some(i) => {
            let j = choose|j: int| 0 <= j < old_rs.len() && old_rs[j].id@ == record.id@;
            lemma_record_pos(new_rs, record.id@, i);
        },
        None => {
            lemma_record_pos(new_rs, record.id@, old_rs.len() as int);
        },
    }
}

/// A removed record is gone.
pub proof fn lemma_removed_record_gone(old_rs: Seq<TaskRecord>, id: Seq<char>)
    ensures
        record_pos(old_rs.filter(|r: TaskRecord| r.id@ != id), id) is None,
{
    let f = old_rs.filter(|r: TaskRecord| r.id@ != id);
    if exists|i: int| 0 <= i < f.len() && f[i].id@ == id {
        let i = choose|i: int| 0 <= i < f.len() && f[i].id@ == id;
        old_rs.lemma_filter_pred(|r: TaskRecord| r.id@ != id, i);
    }
}


/// The manager's own tasks as listed: all of them, or only those running.
pub open spec fn live_listed(live: Seq<TaskRecord>, active_only: bool) -> Seq<TaskRecord>
    decreases live.len(),
{
    if live.len() == 0 {
        Seq::empty()
    } else {
        let r = live_listed(live.drop_last(), active_only);
        if !active_only || live.last().running {
            r.push(live.last())
        } else {
            r
        }
    }
}

/// The stored tasks whose ids are not among `ids`, in order.
pub open spec fn stored_unseen(stored: Seq<TaskRecord>, ids: Set<Seq<char>>) -> Seq<TaskRecord>
    decreases stored.len(),
{
    if stored.len() == 0 {
        Seq::empty()
    } else {
        let r = stored_unseen(stored.drop_last(), ids);
        if !ids.contains(stored.last().id@) {
            r.push(stored.last())
        } else {
            r
        }
    }
}

/// The ids of a list of tasks, in order.
pub open spec fn id_seq(v: Seq<TaskRecord>) -> Seq<Seq<char>> {
    v.map_values(|t: TaskRecord| t.id@)
}

/// The ids of a list of tasks.
pub open spec fn task_ids(v: Seq<TaskRecord>) -> Set<Seq<char>> {
    id_seq(v).to_set()
}

/// The tasks a listing shows: the manager's own (only the running ones
/// when `active_only`), then, for a full listing, the stored tasks it does
/// not hold.
pub open spec fn listed_tasks(live: Seq<TaskRecord>, stored: Seq<TaskRecord>, active_only: bool) -> Seq<TaskRecord> {
    live_listed(live, active_only) + if active_only {
        Seq::empty()
    } else {
        stored_unseen(stored, task_ids(live))
    }
}

fn has_task_id(v: &Vec<TaskRecord>, id: &str) -> (r: bool)
    ensures
        r == task_ids(v@).contains(id@),
{
    let mut i: usize = 0;
    while i < v.len()
        invariant
            i <= v.len(),
            forall|j: int| 0 <= j < i ==> v@[j].id@ != id@,
        decreases v.len() - i,
    {
        if crate::text::eq_vec(&chars_of(v[i].id.as_str()), &chars_of(id)) {
            assert(id_seq(v@)[i as int] == id@);
            return true;
        }
        i += 1;
    }
    assert(!task_ids(v@).contains(id@)) by {
        if task_ids(v@).contains(id@) {
            let k = choose|k: int| 0 <= k < v@.len() && #[trigger] id_seq(v@)[k] == id@;
            assert(v@[k].id@ == id@);
        }
    }
    false
}

/// Lists tasks from the manager's own (`live`) and the store's records
/// (see `listed_tasks`).
pub fn list_tasks(live: &Vec<TaskRecord>, stored: &Vec<TaskRecord>, active_only: bool) -> (r: Vec<TaskRecord>)
    ensures
        r@ == listed_tasks(live@, stored@, active_only),
{
    let mut out: Vec<TaskRecord> = Vec::new();
    let mut i: usize = 0;
    while i < live.len()
        invariant
            i <= live.len(),
            out@ == live_listed(live@.subrange(0, i as int), active_only),
        decreases live.len() - i,
    {
        assert(live@.subrange(0, i + 1).drop_last() =~= live@.subrange(0, i as int));
        if !active_only || live[i].running {
            out.push(copy_task_record(&live[i]));
        }
        i += 1;
    }
    assert(live@.subrange(0, live.len() as int) =~= live@);
    if active_only {
        assert(out@ + Seq::<TaskRecord>::empty() =~= out@);
        return out;
    }
    let ghost base = out@;
    let mut j: usize = 0;
    while j < stored.len()
        invariant
            j <= stored.len(),
            base == live_listed(live@, active_only),
            !active_only,
            out@ == base + stored_unseen(stored@.subrange(0, j as int), task_ids(live@)),
        decreases stored.len() - j,
    {
        assert(stored@.subrange(0, j + 1).drop_last() =~= stored@.subrange(0, j as int));
        let ghost before = out@;
        if !has_task_id(live, stored[j].id.as_str()) {
            out.push(copy_task_record(&stored[j]));
            assert(out@ =~= before.push(stored@[j as int]));
        }
        j += 1;
    }
    assert(stored@.subrange(0, stored.len() as int) =~= stored@);
    out
}

proof fn lemma_live_listed(live: Seq<TaskRecord>, t: TaskRecord)
    ensures
        live_listed(live, true).contains(t) ==> t.running && live_listed(live, false).contains(t),
        live_listed(live, false) == live,
    decreases live.len(),
{
    if live.len() > 0 {
        lemma_live_listed(live.drop_last(), t);
        assert(live.drop_last().push(live.last()) =~= live);
        let r = live_listed(live.drop_last(), true);
        if live_listed(live, true).contains(t) {
            let k = choose|k: int| 0 <= k < live_listed(live, true).len() && live_listed(live, true)[k] == t;
            if k < r.len() {
                assert(r[k] == t);
                assert(r.contains(t));
                let m = choose|m: int| 0 <= m < live.drop_last().len() && live.drop_last()[m] == t;
                assert(live[m] == t);
            } else {
                assert(live[live.len() - 1] == t);
            }
        }
    }
}

/// Every task an active listing shows is running and shown by the full
/// listing too.
pub proof fn lemma_active_listing_within_full(live: Seq<TaskRecord>, stored: Seq<TaskRecord>, t: TaskRecord)
    requires
        listed_tasks(live, stored, true).contains(t),
    ensures
        t.running,
        listed_tasks(live, stored, false).contains(t),
{
    lemma_live_listed(live, t);
    let a = listed_tasks(live, stored, true);
    assert(a =~= live_listed(live, true));
    let full = listed_tasks(live, stored, false);
    let k = choose|k: int| 0 <= k < live.len() && live[k] == t;
    assert(full[k] == t);
}

/// Looks a task up: among the manager's own first, then in the store.
pub fn get_task(live: &Vec<TaskRecord>, stored: &Vec<TaskRecord>, id: &str) -> (r: Option<TaskRecord>)
    requires
        record_ids_distinct(live@),
        record_ids_distinct(stored@),
    ensures
        match record_pos(live@, id@) {
            Some(i) => r == Some(live@[i]),
            None => match record_pos(stored@, id@) {
                Some(j) => r == Some(stored@[j]),
                None => r is None,
            },
        },
{
    match find_record(live, id) {
        Some(i) => Some(copy_task_record(&live[i])),
        None => match find_record(stored, id) {
            Some(j) => Some(copy_task_record(&stored[j])),
            None => None,
        },
    }
}

/// The record kept of a task that was killed: no longer running, with the
/// reason it was killed.
pub fn killed_record(task: &TaskRecord, reason: &str) -> (r: TaskRecord)
    ensures
        r.id == task.id,
        r.command == task.command,
        r.created_at == task.created_at,
        r.exit_code == task.exit_code,
        !r.running,
        r.failure_reason matches Some(f) && f@ == reason@,
{
    TaskRecord {
        id: task.id.clone(),
        command: task.command.clone(),
        created_at: task.created_at,
        exit_code: task.exit_code,
        running: false,
        failure_reason: Some(reason.to_string()),
    }
}

/// The record kept of a task stopped by the task-stop tool.
pub fn stopped_record(task: &TaskRecord) -> (r: TaskRecord)
    ensures
        r.id == task.id,
        r.command == task.command,
        r.created_at == task.created_at,
        r.exit_code == task.exit_code,
        !r.running,
        r.failure_reason matches Some(f) && f@ == "Stopped by TaskStop"@,
{
    killed_record(task, "Stopped by TaskStop")
}

} // verus!
