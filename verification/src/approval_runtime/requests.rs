//! Approval requests: each is created pending, and then resolved with the
//! user's answer or cancelled, once.
use super::{ApprovalRuntime, ApprovalSource};
use crate::error::KimiCliError;
use crate::hooks::events::json_clone;
use crate::text::{append_vec, chars_of, eq_vec, string_of};
use vstd::prelude::*;

verus! {

/// A request for approval and what became of it. `created_at` and
/// `resolved_at` are times in microseconds since the Unix epoch.
#[derive(Debug, Clone)]
pub struct ApprovalRequestRecord {
    pub id: String,
    pub tool_call_id: String,
    pub sender: String,
    pub action: String,
    pub description: String,
    pub display: Vec<serde_json::Value>,
    pub source: ApprovalSource,
    pub created_at: Option<u64>,
    pub status: String,
    pub resolved_at: Option<u64>,
    pub response: Option<String>,
    pub feedback: String,
}

/// A request as a value.
pub struct RequestView {
    pub id: Seq<char>,
    pub tool_call_id: Seq<char>,
    pub sender: Seq<char>,
    pub action: Seq<char>,
    pub description: Seq<char>,
    pub display: Seq<serde_json::Value>,
    pub source_kind: Seq<char>,
    pub source_id: Seq<char>,
    pub created_at: Option<u64>,
    pub status: Seq<char>,
    pub resolved_at: Option<u64>,
    pub response: Option<Seq<char>>,
    pub feedback: Seq<char>,
}

pub open spec fn request_view(r: ApprovalRequestRecord) -> RequestView {
    RequestView {
        id: r.id@,
        tool_call_id: r.tool_call_id@,
        sender: r.sender@,
        action: r.action@,
        description: r.description@,
        display: r.display@,
        source_kind: r.source.kind@,
        source_id: r.source.id@,
        created_at: r.created_at,
        status: r.status@,
        resolved_at: r.resolved_at,
        response: match r.response {
            Some(s) => Some(s@),
            None => None,
        },
        feedback: r.feedback@,
    }
}

/// The requests keyed by id, a later one replacing an earlier one.
pub open spec fn map_of(rs: Seq<ApprovalRequestRecord>) -> Map<Seq<char>, RequestView>
    decreases rs.len(),
{
    if rs.len() == 0 {
        Map::empty()
    } else {
        map_of(rs.drop_last()).insert(rs.last().id@, request_view(rs.last()))
    }
}

pub open spec fn ids_distinct(rs: Seq<ApprovalRequestRecord>) -> bool {
    forall|i: int, j: int| 0 <= i < j < rs.len() ==> rs[i].id@ != rs[j].id@
}

proof fn lemma_map_of(rs: Seq<ApprovalRequestRecord>)
    requires
        ids_distinct(rs),
    ensures
        forall|i: int| 0 <= i < rs.len() ==> map_of(rs).contains_key(#[trigger] rs[i].id@) && map_of(rs)[rs[i].id@]
            == request_view(rs[i]),
        forall|id: Seq<char>| map_of(rs).contains_key(id) ==> exists|i: int| 0 <= i < rs.len() && rs[i].id@ == id,
    decreases rs.len(),
{
    if rs.len() > 0 {
        lemma_map_of(rs.drop_last());
        assert forall|i: int| 0 <= i < rs.len() implies map_of(rs).contains_key(#[trigger] rs[i].id@)
            && map_of(rs)[rs[i].id@] == request_view(rs[i]) by {
            if i < rs.len() - 1 {
                assert(rs.drop_last()[i] == rs[i]);
                assert(rs[i].id@ != rs.last().id@);
            }
        }
        assert forall|id: Seq<char>| map_of(rs).contains_key(id) implies exists|i: int|
            0 <= i < rs.len() && rs[i].id@ == id by {
            if id != rs.last().id@ {
                let i = choose|i: int| 0 <= i < rs.drop_last().len() && rs.drop_last()[i].id@ == id;
                assert(rs[i].id@ == id);
            } else {
                assert(rs[rs.len() - 1].id@ == id);
            }
        }
    }
}

proof fn lemma_map_update(rs: Seq<ApprovalRequestRecord>, i: int, r: ApprovalRequestRecord)
    requires
        ids_distinct(rs),
        0 <= i < rs.len(),
        r.id@ == rs[i].id@,
    ensures
        ids_distinct(rs.update(i, r)),
        map_of(rs.update(i, r)) == map_of(rs).insert(r.id@, request_view(r)),
{
    let u = rs.update(i, r);
    assert(ids_distinct(u)) by {
        assert forall|a: int, b: int| 0 <= a < b < u.len() implies u[a].id@ != u[b].id@ by {
            assert(u[a].id@ == rs[a].id@);
            assert(u[b].id@ == rs[b].id@);
        }
    }
    lemma_map_of(rs);
    lemma_map_of(u);
    let m1 = map_of(u);
    let m2 = map_of(rs).insert(r.id@, request_view(r));
    assert forall|id: Seq<char>| m1.contains_key(id) <==> m2.contains_key(id) by {
        if m1.contains_key(id) {
            let j = choose|j: int| 0 <= j < u.len() && u[j].id@ == id;
            assert(rs[j].id@ == id);
        }
        if m2.contains_key(id) && id != r.id@ {
            let j = choose|j: int| 0 <= j < rs.len() && rs[j].id@ == id;
            assert(u[j].id@ == id);
        }
        if id == r.id@ {
            assert(u[i].id@ == id);
        }
    }
    assert forall|id: Seq<char>| #[trigger] m1.contains_key(id) implies m1[id] == m2[id] by {
        let j = choose|j: int| 0 <= j < u.len() && u[j].id@ == id;
        if j == i {
        } else {
            assert(rs[j].id@ == id);
            assert(id != r.id@);
        }
    }
    assert(m1 =~= m2);
}

proof fn lemma_map_push(rs: Seq<ApprovalRequestRecord>, r: ApprovalRequestRecord)
    requires
        ids_distinct(rs),
        !map_of(rs).contains_key(r.id@),
    ensures
        ids_distinct(rs.push(r)),
        map_of(rs.push(r)) == map_of(rs).insert(r.id@, request_view(r)),
{
    lemma_map_of(rs);
    let p = rs.push(r);
    assert(p.drop_last() =~= rs);
    assert forall|a: int, b: int| 0 <= a < b < p.len() implies p[a].id@ != p[b].id@ by {
        if b == rs.len() {
            assert(map_of(rs).contains_key(rs[a].id@));
        } else {
            assert(p[a] == rs[a] && p[b] == rs[b]);
        }
    }
}

/// Whether a request is waiting for an answer.
pub open spec fn is_pending(v: RequestView) -> bool {
    v.status == "pending"@
}

/// A request answered with `response` and `feedback` at `now`.
pub open spec fn resolved_view(v: RequestView, response: Seq<char>, feedback: Seq<char>, now: u64) -> RequestView {
    RequestView {
        status: "resolved"@,
        response: Some(response),
        feedback,
        resolved_at: Some(now),
        ..v
    }
}

/// A request cancelled with `feedback` at `now`: it counts as rejected.
pub open spec fn cancelled_view(v: RequestView, feedback: Seq<char>, now: u64) -> RequestView {
    RequestView {
        status: "cancelled"@,
        response: Some("reject"@),
        feedback,
        resolved_at: Some(now),
        ..v
    }
}

/// What a waiter for a request learns: `Err` with the kind of failure
/// (0: no such request, 1: cancelled), `Ok(None)` to keep waiting, or the
/// answer and its feedback.
pub open spec fn response_state_spec(m: Map<Seq<char>, RequestView>, id: Seq<char>) -> Result<
    Option<(Seq<char>, Seq<char>)>,
    int,
> {
    if !m.contains_key(id) {
        Err(0)
    } else if m[id].status == "cancelled"@ {
        Err(1)
    } else if m[id].status == "resolved"@ {
        Ok(
            Some(
                (
                    match m[id].response {
                        Some(r) => r,
                        None => Seq::empty(),
                    },
                    m[id].feedback,
                ),
            ),
        )
    } else {
        Ok(None)
    }
}

fn copy_source(s: &ApprovalSource) -> (r: ApprovalSource)
    ensures
        r.kind@ == s.kind@,
        r.id@ == s.id@,
{
    ApprovalSource {
        kind: s.kind.clone(),
        id: s.id.clone(),
        agent_id: match &s.agent_id {
            Some(a) => Some(a.clone()),
            None => None,
        },
        subagent_type: match &s.subagent_type {
            Some(a) => Some(a.clone()),
            None => None,
        },
    }
}

fn copy_display(v: &Vec<serde_json::Value>) -> (r: Vec<serde_json::Value>)
    ensures
        r@ == v@,
{
    let mut r = Vec::new();
    let mut i: usize = 0;
    while i < v.len()
        invariant
            i <= v.len(),
            r@ == v@.subrange(0, i as int),
        decreases v.len() - i,
    {
        r.push(json_clone(&v[i]));
        assert(v@.subrange(0, i + 1) =~= v@.subrange(0, i as int).push(v@[i as int]));
        i += 1;
    }
    assert(v@.subrange(0, v.len() as int) =~= v@);
    r
}

fn copy_request(r: &ApprovalRequestRecord) -> (c: ApprovalRequestRecord)
    ensures
        request_view(c) == request_view(*r),
{
    ApprovalRequestRecord {
        id: r.id.clone(),
        tool_call_id: r.tool_call_id.clone(),
        sender: r.sender.clone(),
        action: r.action.clone(),
        description: r.description.clone(),
        display: copy_display(&r.display),
        source: copy_source(&r.source),
        created_at: r.created_at,
        status: r.status.clone(),
        resolved_at: r.resolved_at,
        response: match &r.response {
            Some(s) => Some(s.clone()),
            None => None,
        },
        feedback: r.feedback.clone(),
    }
}

fn same_text(a: &String, b: &str) -> (r: bool)
    ensures
        r == (a@ == b@),
{
    eq_vec(&chars_of(a.as_str()), &chars_of(b))
}

impl ApprovalRuntime {
    /// A runtime with no rules and no requests.
    pub fn new() -> (r: Self)
        ensures
            r.auto_approve_patterns@.len() == 0,
            r.deny_patterns@.len() == 0,
            r.requests_wf(),
            r.requests_map() == Map::<Seq<char>, RequestView>::empty(),
    {
        let r = ApprovalRuntime { auto_approve_patterns: Vec::new(), deny_patterns: Vec::new(), requests: Vec::new() };
        assert(map_of(r.requests@) =~= Map::<Seq<char>, RequestView>::empty());
        r
    }

    /// The requests, keyed by id.
    pub closed spec fn requests_map(&self) -> Map<Seq<char>, RequestView> {
        map_of(self.requests@)
    }

    pub closed spec fn requests_wf(&self) -> bool {
        ids_distinct(self.requests@)
    }

    fn index_of(&self, id: &str) -> (r: Option<usize>)
        requires
            self.requests_wf(),
        ensures
            match r {
                Some(i) => i < self.requests@.len() && self.requests@[i as int].id@ == id@,
                None => !self.requests_map().contains_key(id@),
            },
    {
        proof {
            lemma_map_of(self.requests@);
        }
        let mut i: usize = 0;
        while i < self.requests.len()
            invariant
                i <= self.requests.len(),
                forall|j: int| 0 <= j < i ==> self.requests@[j].id@ != id@,
            decreases self.requests.len() - i,
        {
            if same_text(&self.requests[i].id, id) {
                return Some(i);
            }
            i += 1;
        }
        None
    }

    /// Records a new pending request (replacing any with the same id) and
    /// returns it.
    pub fn create_request(
        &mut self,
        request_id: String,
        tool_call_id: String,
        sender: String,
        action: String,
        description: String,
        display: Vec<serde_json::Value>,
        source: ApprovalSource,
        now: u64,
    ) -> (r: ApprovalRequestRecord)
        requires
            old(self).requests_wf(),
        ensures
            final(self).requests_wf(),
            request_view(r) == (RequestView {
                id: request_id@,
                tool_call_id: tool_call_id@,
                sender: sender@,
                action: action@,
                description: description@,
                display: display@,
                source_kind: source.kind@,
                source_id: source.id@,
                created_at: Some(now),
                status: "pending"@,
                resolved_at: None,
                response: None,
                feedback: Seq::empty(),
            }),
            final(self).requests_map() == old(self).requests_map().insert(request_id@, request_view(r)),
            final(self).auto_approve_patterns == old(self).auto_approve_patterns,
            final(self).deny_patterns == old(self).deny_patterns,
    {
        let rec = ApprovalRequestRecord {
            id: request_id,
            tool_call_id,
            sender,
            action,
            description,
            display,
            source,
            created_at: Some(now),
            status: "pending".to_string(),
            resolved_at: None,
            response: None,
            feedback: String::new(),
        };
        let out = copy_request(&rec);
        match self.index_of(rec.id.as_str()) {
            Some(i) => {
                proof {
                    lemma_map_update(self.requests@, i as int, rec);
                }
                self.requests.set(i, rec);
            },
            None => {
                proof {
                    lemma_map_push(self.requests@, rec);
                }
                self.requests.push(rec);
            },
        }
        out
    }

    /// A copy of the request with the given id.
    pub fn get_request(&self, request_id: &str) -> (r: Option<ApprovalRequestRecord>)
        requires
            self.requests_wf(),
        ensures
            match r {
                Some(x) => self.requests_map().contains_key(request_id@) && request_view(x)
                    == self.requests_map()[request_id@],
                None => !self.requests_map().contains_key(request_id@),
            },
    {
        proof {
            lemma_map_of(self.requests@);
        }
        match self.index_of(request_id) {
            Some(i) => Some(copy_request(&self.requests[i])),
            None => None,
        }
    }

    /// Answers a pending request; false (nothing changes) when there is no
    /// such request or it is no longer pending.
    pub fn resolve(&mut self, request_id: &str, response: &str, feedback: &str, now: u64) -> (r: bool)
        requires
            old(self).requests_wf(),
        ensures
            final(self).requests_wf(),
            r == (old(self).requests_map().contains_key(request_id@) && is_pending(
                old(self).requests_map()[request_id@],
            )),
            r ==> final(self).requests_map() == old(self).requests_map().insert(
                request_id@,
                resolved_view(old(self).requests_map()[request_id@], response@, feedback@, now),
            ),
            !r ==> final(self).requests_map() == old(self).requests_map(),
            final(self).auto_approve_patterns == old(self).auto_approve_patterns,
            final(self).deny_patterns == old(self).deny_patterns,
    {
        proof {
            lemma_map_of(self.requests@);
        }
        match self.index_of(request_id) {
            None => false,
            Some(i) => {
                if !same_text(&self.requests[i].status, "pending") {
                    return false;
                }
                let mut rec = copy_request(&self.requests[i]);
                rec.status = "resolved".to_string();
                rec.response = Some(response.to_string());
                rec.feedback = feedback.to_string();
                rec.resolved_at = Some(now);
                proof {
                    lemma_map_update(self.requests@, i as int, rec);
                }
                self.requests.set(i, rec);
                true
            },
        }
    }

    /// Cancels a pending request (it counts as rejected); false (nothing
    /// changes) when there is no such request or it is no longer pending.
    pub fn cancel_request(&mut self, request_id: &str, feedback: &str, now: u64) -> (r: bool)
        requires
            old(self).requests_wf(),
        ensures
            final(self).requests_wf(),
            r == (old(self).requests_map().contains_key(request_id@) && is_pending(
                old(self).requests_map()[request_id@],
            )),
            r ==> final(self).requests_map() == old(self).requests_map().insert(
                request_id@,
                cancelled_view(old(self).requests_map()[request_id@], feedback@, now),
            ),
            !r ==> final(self).requests_map() == old(self).requests_map(),
            final(self).auto_approve_patterns == old(self).auto_approve_patterns,
            final(self).deny_patterns == old(self).deny_patterns,
    {
        proof {
            lemma_map_of(self.requests@);
        }
        match self.index_of(request_id) {
            None => false,
            Some(i) => {
                if !same_text(&self.requests[i].status, "pending") {
                    return false;
                }
                let mut rec = copy_request(&self.requests[i]);
                rec.status = "cancelled".to_string();
                rec.response = Some("reject".to_string());
                rec.feedback = feedback.to_string();
                rec.resolved_at = Some(now);
                proof {
                    lemma_map_update(self.requests@, i as int, rec);
                }
                self.requests.set(i, rec);
                true
            },
        }
    }

    /// What a waiter for a request learns now (see `response_state_spec`):
    /// an unknown request is an error, a cancelled one is
    /// `ApprovalCancelled`, a pending one means waiting.
    pub fn response_state(&self, request_id: &str) -> (r: Result<Option<(String, String)>, KimiCliError>)
        requires
            self.requests_wf(),
        ensures
            match response_state_spec(self.requests_map(), request_id@) {
                Err(k) => if k == 0 {
                    r matches Err(KimiCliError::Generic(m)) && m@ == "Approval request not found: "@ + request_id@
                } else {
                    r matches Err(KimiCliError::ApprovalCancelled)
                },
                Ok(None) => r matches Ok(None),
                Ok(Some((a, f))) => r matches Ok(Some((ra, rf))) && ra@ == a && rf@ == f,
            },
    {
        proof {
            lemma_map_of(self.requests@);
        }
        match self.index_of(request_id) {
            None => {
                let mut m = chars_of("Approval request not found: ");
                append_vec(&mut m, &chars_of(request_id));
                Err(KimiCliError::Generic(string_of(&m)))
            },
            Some(i) => {
                let rec = &self.requests[i];
                if same_text(&rec.status, "cancelled") {
                    Err(KimiCliError::ApprovalCancelled)
                } else if same_text(&rec.status, "resolved") {
                    let resp = match &rec.response {
                        Some(s) => s.clone(),
                        None => String::new(),
                    };
                    Ok(Some((resp, rec.feedback.clone())))
                } else {
                    Ok(None)
                }
            },
        }
    }
}

/// Whether a request is pending and came from the given source.
pub open spec fn pending_from(v: RequestView, kind: Seq<char>, source_id: Seq<char>) -> bool {
    is_pending(v) && v.source_kind == kind && v.source_id == source_id
}

/// The ids of the pending requests from the given source.
pub open spec fn pending_from_source(m: Map<Seq<char>, RequestView>, kind: Seq<char>, source_id: Seq<char>) -> Set<
    Seq<char>,
> {
    m.dom().filter(|id: Seq<char>| pending_from(m[id], kind, source_id))
}

impl ApprovalRuntime {
    /// Cancels every pending request from the given source and returns how
    /// many there were.
    pub fn cancel_by_source(&mut self, source_kind: &str, source_id: &str, now: u64) -> (r: usize)
        requires
            old(self).requests_wf(),
        ensures
            final(self).requests_wf(),
            r == pending_from_source(old(self).requests_map(), source_kind@, source_id@).len(),
            final(self).requests_map().dom() == old(self).requests_map().dom(),
            forall|id: Seq<char>| #[trigger]
                old(self).requests_map().contains_key(id) ==> final(self).requests_map()[id] == (if pending_from(
                    old(self).requests_map()[id],
                    source_kind@,
                    source_id@,
                ) {
                    cancelled_view(old(self).requests_map()[id], Seq::empty(), now)
                } else {
                    old(self).requests_map()[id]
                }),
            final(self).auto_approve_patterns == old(self).auto_approve_patterns,
            final(self).deny_patterns == old(self).deny_patterns,
    {
        let ghost orig = self.requests@;
        let ghost kind = source_kind@;
        let ghost sid = source_id@;
        let ghost mut done: Set<Seq<char>> = Set::empty();
        let mut count: usize = 0;
        let mut i: usize = 0;
        while i < self.requests.len()
            invariant
                i <= self.requests@.len(),
                self.requests@.len() == orig.len(),
                ids_distinct(orig),
                kind == source_kind@,
                sid == source_id@,
                forall|j: int| 0 <= j < orig.len() ==> (#[trigger] self.requests@[j]).id@ == orig[j].id@,
                forall|j: int| 0 <= j < i ==> request_view(#[trigger] self.requests@[j]) == (if pending_from(
                    request_view(orig[j]),
                    kind,
                    sid,
                ) {
                    cancelled_view(request_view(orig[j]), Seq::empty(), now)
                } else {
                    request_view(orig[j])
                }),
                forall|j: int| i <= j < orig.len() ==> request_view(#[trigger] self.requests@[j]) == request_view(orig[j]),
                done.finite(),
                count == done.len(),
                count <= i,
                forall|x: Seq<char>| #[trigger] done.contains(x) <==> exists|j: int|
                    0 <= j < i && orig[j].id@ == x && pending_from(request_view(orig[j]), kind, sid),
                self.auto_approve_patterns == old(self).auto_approve_patterns,
                self.deny_patterns == old(self).deny_patterns,
            decreases orig.len() - i,
        {
            let hit = {
                let rec = &self.requests[i];
                same_text(&rec.status, "pending") && same_text(&rec.source.kind, source_kind) && same_text(
                    &rec.source.id,
                    source_id,
                )
            };
            assert(hit == pending_from(request_view(orig[i as int]), kind, sid));
            if hit {
                let mut rec = copy_request(&self.requests[i]);
                rec.status = "cancelled".to_string();
                rec.response = Some("reject".to_string());
                rec.feedback = String::new();
                rec.resolved_at = Some(now);
                assert(!done.contains(orig[i as int].id@)) by {
                    if done.contains(orig[i as int].id@) {
                        let j = choose|j: int|
                            0 <= j < i && orig[j].id@ == orig[i as int].id@ && pending_from(request_view(orig[j]), kind, sid);
                    }
                }
                proof {
                    done = done.insert(orig[i as int].id@);
                }
                self.requests.set(i, rec);
                count = count + 1;
            }
            i += 1;
        }
        proof {
            let m0 = map_of(orig);
            let m1 = map_of(self.requests@);
            assert(ids_distinct(self.requests@));
            lemma_map_of(orig);
            lemma_map_of(self.requests@);
            assert forall|id: Seq<char>| m1.contains_key(id) <==> m0.contains_key(id) by {
                if m1.contains_key(id) {
                    let j = choose|j: int| 0 <= j < self.requests@.len() && self.requests@[j].id@ == id;
                    assert(m0.contains_key(orig[j].id@));
                }
                if m0.contains_key(id) {
                    let j = choose|j: int| 0 <= j < orig.len() && orig[j].id@ == id;
                    assert(m1.contains_key(self.requests@[j].id@));
                }
            }
            assert(m1.dom() =~= m0.dom());
            assert forall|id: Seq<char>| #[trigger] m0.contains_key(id) implies m1[id] == (if pending_from(
                m0[id],
                kind,
                sid,
            ) {
                cancelled_view(m0[id], Seq::empty(), now)
            } else {
                m0[id]
            }) by {
                let j = choose|j: int| 0 <= j < orig.len() && orig[j].id@ == id;
                assert(m0[id] == request_view(orig[j]));
                assert(m1[self.requests@[j].id@] == request_view(self.requests@[j]));
            }
            assert forall|x: Seq<char>| #[trigger] done.contains(x) <==> pending_from_source(m0, kind, sid).contains(x) by {
                if done.contains(x) {
                    let j = choose|j: int| 0 <= j < orig.len() && orig[j].id@ == x && pending_from(request_view(orig[j]), kind, sid);
                    assert(m0.contains_key(x) && m0[x] == request_view(orig[j]));
                }
                if pending_from_source(m0, kind, sid).contains(x) {
                    let j = choose|j: int| 0 <= j < orig.len() && orig[j].id@ == x;
                    assert(m0[x] == request_view(orig[j]));
                }
            }
            assert(done =~= pending_from_source(m0, kind, sid));
        }
        count
    }
}

/// The order of creation times: no time comes first.
pub open spec fn time_le(a: Option<u64>, b: Option<u64>) -> bool {
    match (a, b) {
        (None, _) => true,
        (Some(_), None) => false,
        (Some(x), Some(y)) => x <= y,
    }
}

fn time_lt_exec(a: Option<u64>, b: Option<u64>) -> (r: bool)
    ensures
        r == !time_le(b, a),
{
    match (a, b) {
        (None, None) => false,
        (None, Some(_)) => true,
        (Some(_), None) => false,
        (Some(x), Some(y)) => x < y,
    }
}

pub open spec fn views(rs: Seq<ApprovalRequestRecord>) -> Seq<RequestView> {
    rs.map_values(|r: ApprovalRequestRecord| request_view(r))
}

pub open spec fn by_time(s: Seq<ApprovalRequestRecord>) -> bool {
    forall|a: int, b: int| 0 <= a < b < s.len() ==> time_le(s[a].created_at, s[b].created_at)
}

/// Inserts a request after those created no later than it.
fn insert_by_time(out: &mut Vec<ApprovalRequestRecord>, x: ApprovalRequestRecord) -> (k: usize)
    requires
        by_time(old(out)@),
    ensures
        k <= old(out)@.len(),
        final(out)@ == old(out)@.insert(k as int, x),
        by_time(final(out)@),
{
    let mut k: usize = 0;
    while k < out.len() && !time_lt_exec(x.created_at, out[k].created_at)
        invariant
            k <= out@.len(),
            forall|a: int| 0 <= a < k ==> time_le(out@[a].created_at, x.created_at),
        decreases out@.len() - k,
    {
        k += 1;
    }
    let ghost before = out@;
    assert(forall|a: int| k <= a < before.len() ==> time_le(x.created_at, before[a].created_at)) by {
        if k < before.len() {
            assert(!time_le(before[k as int].created_at, x.created_at));
            assert forall|a: int| k <= a < before.len() implies time_le(x.created_at, before[a].created_at) by {
                if a > k {
                    assert(time_le(before[k as int].created_at, before[a].created_at));
                }
            }
        }
    }
    out.insert(k, x);
    assert forall|a: int, b: int| 0 <= a < b < out@.len() implies time_le(out@[a].created_at, out@[b].created_at) by {
        if a < k && b > k {
            assert(out@[b] == before[b - 1]);
            assert(time_le(before[a].created_at, x.created_at));
        } else if a > k {
            assert(out@[a] == before[a - 1] && out@[b] == before[b - 1]);
        } else if a == k {
            assert(out@[b] == before[b - 1]);
        }
    }
    k
}

impl ApprovalRuntime {
    /// The pending requests, oldest first.
    #[verifier::rlimit(60)]
    pub fn list_pending(&self) -> (r: Vec<ApprovalRequestRecord>)
        requires
            self.requests_wf(),
        ensures
            forall|k: int| 0 <= k < r@.len() ==> {
                let v = request_view(#[trigger] r@[k]);
                &&& self.requests_map().contains_key(v.id)
                &&& self.requests_map()[v.id] == v
                &&& is_pending(v)
            },
            forall|a: int, b: int| 0 <= a < b < r@.len() ==> r@[a].id@ != r@[b].id@,
            forall|id: Seq<char>| #[trigger]
                self.requests_map().contains_key(id) && is_pending(self.requests_map()[id]) ==> exists|k: int|
                    0 <= k < r@.len() && r@[k].id@ == id,
            forall|a: int, b: int| 0 <= a < b < r@.len() ==> time_le(r@[a].created_at, r@[b].created_at),
    {
        let ghost rs = self.requests@;
        proof {
            lemma_map_of(rs);
        }
        let mut out: Vec<ApprovalRequestRecord> = Vec::new();
        let mut i: usize = 0;
        while i < self.requests.len()
            invariant
                i <= rs.len(),
                rs == self.requests@,
                ids_distinct(rs),
                forall|k: int| 0 <= k < out@.len() ==> exists|j: int|
                    0 <= j < i && request_view(#[trigger] out@[k]) == request_view(rs[j]) && is_pending(request_view(rs[j])),
                forall|j: int| 0 <= j < i && is_pending(request_view(#[trigger] rs[j])) ==> exists|k: int|
                    0 <= k < out@.len() && out@[k].id@ == rs[j].id@,
                forall|a: int, b: int| 0 <= a < b < out@.len() ==> out@[a].id@ != out@[b].id@,
                by_time(out@),
            decreases rs.len() - i,
        {
            if same_text(&self.requests[i].status, "pending") {
                let x = copy_request(&self.requests[i]);
                let ghost before = out@;
                assert forall|a: int| 0 <= a < before.len() implies before[a].id@ != rs[i as int].id@ by {
                    let j = choose|j: int|
                        0 <= j < i && request_view(before[a]) == request_view(rs[j]) && is_pending(request_view(rs[j]));
                }
                let k = insert_by_time(&mut out, x);
                assert forall|a: int, b: int| 0 <= a < b < out@.len() implies out@[a].id@ != out@[b].id@ by {
                    if a < k && b > k {
                        assert(out@[b] == before[b - 1]);
                    } else if a > k {
                        assert(out@[a] == before[a - 1] && out@[b] == before[b - 1]);
                    }
                }
                assert forall|kk: int| 0 <= kk < out@.len() implies exists|j: int|
                    0 <= j < i + 1 && request_view(#[trigger] out@[kk]) == request_view(rs[j]) && is_pending(
                        request_view(rs[j]),
                    ) by {
                    if kk == k {
                        assert(request_view(out@[kk]) == request_view(rs[i as int]));
                    } else if kk < k {
                        assert(out@[kk] == before[kk]);
                    } else {
                        assert(out@[kk] == before[kk - 1]);
                    }
                }
                assert forall|j: int| 0 <= j < i + 1 && is_pending(request_view(#[trigger] rs[j])) implies exists|kk: int|
                    0 <= kk < out@.len() && out@[kk].id@ == rs[j].id@ by {
                    if j == i {
                        assert(out@[k as int].id@ == rs[j].id@);
                    } else {
                        let kk = choose|kk: int| 0 <= kk < before.len() && before[kk].id@ == rs[j].id@;
                        if kk < k {
                            assert(out@[kk] == before[kk]);
                        } else {
                            assert(out@[kk + 1] == before[kk]);
                        }
                    }
                }
            }
            i += 1;
        }
        assert forall|k: int| 0 <= k < out@.len() implies ({
            let v = request_view(#[trigger] out@[k]);
            &&& self.requests_map().contains_key(v.id)
            &&& self.requests_map()[v.id] == v
            &&& is_pending(v)
        }) by {
            let j = choose|j: int|
                0 <= j < rs.len() && request_view(out@[k]) == request_view(rs[j]) && is_pending(request_view(rs[j]));
            assert(self.requests_map()[rs[j].id@] == request_view(rs[j]));
        }
        assert forall|id: Seq<char>| #[trigger]
            self.requests_map().contains_key(id) && is_pending(self.requests_map()[id]) implies exists|k: int|
                0 <= k < out@.len() && out@[k].id@ == id by {
            let j = choose|j: int| 0 <= j < rs.len() && rs[j].id@ == id;
            assert(self.requests_map()[id] == request_view(rs[j]));
        }
        out
    }
}

/// Whether a request is pending and asks for the given action.
pub open spec fn pending_for(v: RequestView, action: Seq<char>) -> bool {
    is_pending(v) && v.action == action
}

impl ApprovalRuntime {
    /// Approves every pending request for the given action (what approving
    /// an action for the session does to the requests already waiting).
    pub fn approve_pending_for_action(&mut self, action: &str, now: u64)
        requires
            old(self).requests_wf(),
        ensures
            final(self).requests_wf(),
            final(self).requests_map().dom() == old(self).requests_map().dom(),
            forall|id: Seq<char>| #[trigger]
                old(self).requests_map().contains_key(id) ==> final(self).requests_map()[id] == (if pending_for(
                    old(self).requests_map()[id],
                    action@,
                ) {
                    resolved_view(old(self).requests_map()[id], "approve"@, Seq::empty(), now)
                } else {
                    old(self).requests_map()[id]
                }),
            final(self).auto_approve_patterns == old(self).auto_approve_patterns,
            final(self).deny_patterns == old(self).deny_patterns,
    {
        let ghost orig = self.requests@;
        let ghost act = action@;
        let mut i: usize = 0;
        while i < self.requests.len()
            invariant
                i <= self.requests@.len(),
                self.requests@.len() == orig.len(),
                ids_distinct(orig),
                act == action@,
                forall|j: int| 0 <= j < orig.len() ==> (#[trigger] self.requests@[j]).id@ == orig[j].id@,
                forall|j: int| 0 <= j < i ==> request_view(#[trigger] self.requests@[j]) == (if pending_for(
                    request_view(orig[j]),
                    act,
                ) {
                    resolved_view(request_view(orig[j]), "approve"@, Seq::empty(), now)
                } else {
                    request_view(orig[j])
                }),
                forall|j: int| i <= j < orig.len() ==> request_view(#[trigger] self.requests@[j]) == request_view(orig[j]),
                self.auto_approve_patterns == old(self).auto_approve_patterns,
                self.deny_patterns == old(self).deny_patterns,
            decreases orig.len() - i,
        {
            let hit = same_text(&self.requests[i].status, "pending") && same_text(&self.requests[i].action, action);
            if hit {
                let mut rec = copy_request(&self.requests[i]);
                rec.status = "resolved".to_string();
                rec.response = Some("approve".to_string());
                rec.feedback = String::new();
                rec.resolved_at = Some(now);
                self.requests.set(i, rec);
            }
            i += 1;
        }
        proof {
            let m0 = map_of(orig);
            let m1 = map_of(self.requests@);
            assert(ids_distinct(self.requests@));
            lemma_map_of(orig);
            lemma_map_of(self.requests@);
            assert forall|id: Seq<char>| m1.contains_key(id) <==> m0.contains_key(id) by {
                if m1.contains_key(id) {
                    let j = choose|j: int| 0 <= j < self.requests@.len() && self.requests@[j].id@ == id;
                    assert(m0.contains_key(orig[j].id@));
                }
                if m0.contains_key(id) {
                    let j = choose|j: int| 0 <= j < orig.len() && orig[j].id@ == id;
                    assert(m1.contains_key(self.requests@[j].id@));
                }
            }
            assert(m1.dom() =~= m0.dom());
            assert forall|id: Seq<char>| #[trigger] m0.contains_key(id) implies m1[id] == (if pending_for(m0[id], act) {
                resolved_view(m0[id], "approve"@, Seq::empty(), now)
            } else {
                m0[id]
            }) by {
                let j = choose|j: int| 0 <= j < orig.len() && orig[j].id@ == id;
                assert(m0[id] == request_view(orig[j]));
                assert(m1[self.requests@[j].id@] == request_view(self.requests@[j]));
            }
        }
    }
}

/// A request is answered once: after it was resolved, resolving it again
/// changes nothing and reports so.
pub proof fn lemma_resolve_once(
    m0: Map<Seq<char>, RequestView>,
    id: Seq<char>,
    response: Seq<char>,
    feedback: Seq<char>,
    now: u64,
)
    requires
        m0.contains_key(id),
        is_pending(m0[id]),
    ensures
        ({
            let m1 = m0.insert(id, resolved_view(m0[id], response, feedback, now));
            &&& !is_pending(m1[id])
            &&& response_state_spec(m1, id) == Ok::<Option<(Seq<char>, Seq<char>)>, int>(Some((response, feedback)))
        }),
{
    let m1 = m0.insert(id, resolved_view(m0[id], response, feedback, now));
    assert(m1[id].status == "resolved"@);
    reveal_strlit("resolved");
    reveal_strlit("pending");
    reveal_strlit("cancelled");
    assert("resolved"@ != "pending"@) by {
        assert("resolved"@[0] != "pending"@[0]);
    }
    assert("resolved"@ != "cancelled"@) by {
        assert("resolved"@[0] != "cancelled"@[0]);
    }
}

/// A cancelled request tells its waiter so, and cannot be answered after.
pub proof fn lemma_cancel_final(m0: Map<Seq<char>, RequestView>, id: Seq<char>, feedback: Seq<char>, now: u64)
    requires
        m0.contains_key(id),
        is_pending(m0[id]),
    ensures
        ({
            let m1 = m0.insert(id, cancelled_view(m0[id], feedback, now));
            &&& !is_pending(m1[id])
            &&& response_state_spec(m1, id) == Err::<Option<(Seq<char>, Seq<char>)>, int>(1)
        }),
{
    reveal_strlit("pending");
    reveal_strlit("cancelled");
    assert("cancelled"@ != "pending"@) by {
        assert("cancelled"@[0] != "pending"@[0]);
    }
}

} // verus!
