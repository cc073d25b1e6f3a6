//! The agent loop's decisions: plan mode, whether each tool call may run,
//! slash commands, and how a turn ends.
use crate::approval_runtime::{evaluate_spec, ApprovalDecision, ApprovalRuntime};
use crate::ids::{random_hex_id, uuid_v4_text};
use crate::soul::message::{
    tool_content_spec, tool_result_to_message, copy_parts, messages_view, parts_view, return_text_spec, text_parts, ContentPart, Message, MessageView,
    PartKind, ToolCall, ToolResult, ToolReturnValue,
};
use crate::soul::denwa_renji::DMail;
use crate::soul::TurnStopReason;
use crate::text::{
    append_vec, chars_of, dec, dec_exec, eq_vec, find_char_exec, find_char_from, join, join_path, path_join,
    replace_all, string_of, sub_vec, to_lowercase, to_lowercase_result,
};
use vstd::prelude::*;

verus! {

/// Plan-mode state of a soul, mirrored into its session state.
#[derive(Debug, Clone)]
pub struct PlanState {
    pub plan_mode: bool,
    pub plan_session_id: Option<String>,
    pub plan_slug: Option<String>,
    pub pending_plan_activation_injection: bool,
}

/// An identifier made by removing the hyphens of a random UUID.
pub open spec fn plan_id_text(id: Seq<char>) -> bool {
    exists|u: Seq<char>| uuid_v4_text(u) && id == replace_all(u, "-"@, ""@)
}

/// `new` is `old` after plan mode was asked to be `enabled`: asking for the
/// current mode changes nothing; switching on keeps the plan's identifier,
/// or makes a fresh one, and schedules the activation reminder; switching
/// off forgets the plan.
pub open spec fn plan_switched(old: PlanState, new: PlanState, enabled: bool) -> bool {
    &&& new.plan_mode == enabled
    &&& enabled == old.plan_mode ==> new == old
    &&& enabled && !old.plan_mode ==> {
        &&& new.pending_plan_activation_injection
        &&& new.plan_slug == old.plan_slug
        &&& match old.plan_session_id {
            Some(id) => new.plan_session_id == Some(id),
            None => new.plan_session_id matches Some(id) && plan_id_text(id@),
        }
    }
    &&& !enabled && old.plan_mode ==> {
        &&& !new.pending_plan_activation_injection
        &&& new.plan_session_id is None
        &&& new.plan_slug is None
    }
}

/// `new` is `old` after the activation reminder was taken, `r` telling
/// whether there was one: there is one when plan mode is on and a reminder
/// is pending, and taking it clears it; nothing else changes.
pub open spec fn reminder_taken(old: PlanState, new: PlanState, r: bool) -> bool {
    &&& r == (old.plan_mode && old.pending_plan_activation_injection)
    &&& new.pending_plan_activation_injection == (old.pending_plan_activation_injection && !r)
    &&& new.plan_mode == old.plan_mode
    &&& new.plan_session_id == old.plan_session_id
    &&& new.plan_slug == old.plan_slug
}

impl PlanState {
    /// The state a soul starts from: what the session recorded, with no
    /// reminder pending.
    pub fn new(plan_mode: bool, plan_session_id: Option<String>, plan_slug: Option<String>) -> (r: Self)
        ensures
            r.plan_mode == plan_mode,
            r.plan_session_id == plan_session_id,
            r.plan_slug == plan_slug,
            !r.pending_plan_activation_injection,
    {
        PlanState { plan_mode, plan_session_id, plan_slug, pending_plan_activation_injection: false }
    }

    /// Switches plan mode and returns the new mode. Switching it on keeps
    /// the plan's identifier, or makes one, and schedules the activation
    /// reminder; switching it off forgets the plan. Asking for the current
    /// mode changes nothing.
    pub fn set_plan_mode(&mut self, enabled: bool) -> (r: bool)
        ensures
            r == enabled,
            plan_switched(*old(self), *final(self), enabled),
    {
        if enabled == self.plan_mode {
            return self.plan_mode;
        }
        self.plan_mode = enabled;
        if enabled {
            if self.plan_session_id.is_none() {
                self.plan_session_id = Some(random_hex_id());
            }
            self.pending_plan_activation_injection = true;
        } else {
            self.pending_plan_activation_injection = false;
            self.plan_session_id = None;
            self.plan_slug = None;
        }
        self.plan_mode
    }

    /// Flips plan mode (see `set_plan_mode`) and returns the new mode.
    pub fn toggle_plan_mode(&mut self) -> (r: bool)
        ensures
            r == !old(self).plan_mode,
            plan_switched(*old(self), *final(self), r),
    {
        let target = !self.plan_mode;
        self.set_plan_mode(target)
    }

    /// Asks for the activation reminder again, if plan mode is on.
    pub fn schedule_plan_activation_reminder(&mut self)
        ensures
            final(self).pending_plan_activation_injection == (old(self).pending_plan_activation_injection
                || old(self).plan_mode),
            final(self).plan_mode == old(self).plan_mode,
            final(self).plan_session_id == old(self).plan_session_id,
            final(self).plan_slug == old(self).plan_slug,
    {
        if self.plan_mode {
            self.pending_plan_activation_injection = true;
        }
    }

    /// Takes the pending activation reminder: true, once, when plan mode is
    /// on and a reminder is pending.
    pub fn consume_pending_plan_activation_injection(&mut self) -> (r: bool)
        ensures
            reminder_taken(*old(self), *final(self), r),
    {
        if !self.plan_mode || !self.pending_plan_activation_injection {
            return false;
        }
        self.pending_plan_activation_injection = false;
        true
    }

    /// Where the current plan is written: `<share_dir>/plans/<id>.md`, when
    /// there is a plan.
    pub fn get_plan_file_path(&self, share_dir: &str) -> (r: Option<String>)
        ensures
            match self.plan_session_id {
                Some(id) => r matches Some(p) && p@ == path_join(path_join(share_dir@, "plans"@), id@ + ".md"@),
                None => r is None,
            },
    {
        match &self.plan_session_id {
            Some(id) => {
                let dir = join_path(share_dir, "plans");
                let mut name = chars_of(id.as_str());
                append_vec(&mut name, &chars_of(".md"));
                Some(join_path(dir.as_str(), string_of(&name).as_str()))
            },
            None => None,
        }
    }
}

/// Asking twice for the same plan mode is asking once: the second request
/// changes nothing.
pub proof fn lemma_set_plan_mode_idempotent(s0: PlanState, s1: PlanState, s2: PlanState, enabled: bool)
    requires
        plan_switched(s0, s1, enabled),
        plan_switched(s1, s2, enabled),
    ensures
        s2 == s1,
{
}

/// Toggling plan mode twice gives back the mode one started from.
pub proof fn lemma_toggle_twice(s0: PlanState, s1: PlanState, s2: PlanState)
    requires
        plan_switched(s0, s1, !s0.plan_mode),
        plan_switched(s1, s2, !s1.plan_mode),
    ensures
        s2.plan_mode == s0.plan_mode,
{
}

/// The activation reminder is delivered at most once: of two takes in a
/// row, the second finds nothing.
pub proof fn lemma_reminder_taken_once(s0: PlanState, s1: PlanState, s2: PlanState, r1: bool, r2: bool)
    requires
        reminder_taken(s0, s1, r1),
        reminder_taken(s1, s2, r2),
    ensures
        !r2,
{
}

/// Switching plan mode on schedules exactly one reminder.
pub proof fn lemma_switch_on_reminds(s0: PlanState, s1: PlanState, s2: PlanState, r: bool)
    requires
        !s0.plan_mode,
        plan_switched(s0, s1, true),
        reminder_taken(s1, s2, r),
    ensures
        r,
        !s2.pending_plan_activation_injection,
{
}

/// What happens to a tool call before it runs.
#[derive(Debug, Clone)]
pub enum ToolGate {
    /// It runs.
    Run,
    /// It is refused, with this result as its answer.
    Reject { result: ToolResult },
    /// The user is asked.
    AskUser,
}

pub open spec fn denied_text(reason: Seq<char>) -> Seq<char> {
    "Tool use was denied by approval runtime: "@ + reason
}

pub open spec fn rejected_by_user_text() -> Seq<char> {
    "Tool use was rejected by user."@
}

/// Whether `r` is an error result answering `call_id` with `error`.
pub open spec fn is_error_result(r: ToolResult, call_id: Seq<char>, error: Seq<char>) -> bool {
    &&& r.tool_call_id@ == call_id
    &&& r.return_value matches ToolReturnValue::Error { error: e } && e@ == error
}

fn error_result(call_id: &String, error: String) -> (r: ToolResult)
    ensures
        is_error_result(r, call_id@, error@),
{
    ToolResult { tool_call_id: call_id.clone(), return_value: ToolReturnValue::Error { error } }
}

/// Whether a tool call may run: in YOLO mode it does; otherwise the approval
/// rules, when there are any, approve it, deny it, or leave it to the user.
pub fn gate_tool_call(
    yolo: bool,
    rules: Option<&ApprovalRuntime>,
    call: &ToolCall,
    arguments: &serde_json::Value,
) -> (r: ToolGate)
    ensures
        yolo ==> r is Run,
        !yolo ==> match rules {
            None => r is AskUser,
            Some(rt) => {
                let (kind, reason) = evaluate_spec(*rt, call.name@);
                &&& kind == 0 ==> r is Run
                &&& kind == 1 ==> (r matches ToolGate::Reject { result } && is_error_result(
                    result,
                    call.id@,
                    denied_text(reason),
                ))
                &&& kind == 2 ==> r is AskUser
            },
        },
{
    if yolo {
        return ToolGate::Run;
    }
    match rules {
        None => ToolGate::AskUser,
        Some(rt) => match rt.evaluate(call.name.as_str(), arguments) {
            ApprovalDecision::Approve => ToolGate::Run,
            ApprovalDecision::Deny { reason } => {
                let mut m = chars_of("Tool use was denied by approval runtime: ");
                append_vec(&mut m, &chars_of(reason.as_str()));
                ToolGate::Reject { result: error_result(&call.id, string_of(&m)) }
            },
            ApprovalDecision::RequestUser => ToolGate::AskUser,
        },
    }
}

/// The user's answer to an approval request: `None` when the call may run
/// (the answer, lower-cased, is `approve`); otherwise the rejection that
/// answers it. No answer (the channel closed or the wait timed out) rejects.
pub fn settle_user_answer(answer: Option<&str>, call: &ToolCall) -> (r: Option<ToolResult>)
    ensures
        match answer {
            Some(a) => to_lowercase_result(a@) == "approve"@ <==> r is None,
            None => r is Some,
        },
        r matches Some(res) ==> is_error_result(res, call.id@, rejected_by_user_text()),
{
    let approved = match answer {
        Some(a) => {
            let lower = to_lowercase(a);
            eq_vec(&chars_of(lower.as_str()), &chars_of("approve"))
        },
        None => false,
    };
    if approved {
        None
    } else {
        Some(error_result(&call.id, "Tool use was rejected by user.".to_string()))
    }
}

/// The `tool` message that records a refused call: the result's text as
/// its one part.
pub fn rejection_message(result: &ToolResult) -> (r: Message)
    ensures
        r.role@ == "tool"@,
        parts_view(r.content@) == seq![(PartKind::Text, return_text_spec(result.return_value))],
        r.tool_calls is None,
        r.tool_call_id matches Some(id) && id@ == result.tool_call_id@,
{
    let text = result.return_value.extract_text();
    let mut content = Vec::new();
    content.push(ContentPart::Text { text });
    assert(parts_view(content@) =~= seq![(PartKind::Text, return_text_spec(result.return_value))]);
    Message { role: "tool".to_string(), content, tool_calls: None, tool_call_id: Some(result.tool_call_id.clone()) }
}

/// What the user is shown when asked to approve a call.
pub fn approval_description(call: &ToolCall) -> (r: String)
    ensures
        r@ == "Call tool '"@ + call.name@ + "' with args: "@ + call.arguments@,
{
    let mut m = chars_of("Call tool '");
    append_vec(&mut m, &chars_of(call.name.as_str()));
    append_vec(&mut m, &chars_of("' with args: "));
    append_vec(&mut m, &chars_of(call.arguments.as_str()));
    string_of(&m)
}

/// How a step ends once the assistant has answered: a reply that asks for
/// tools continues the loop (`None`); any other reply ends the turn.
pub fn step_stop(reply: &Message) -> (r: Option<TurnStopReason>)
    ensures
        (r is None) == (reply.tool_calls matches Some(v) && v@.len() > 0),
        r matches Some(s) ==> s == TurnStopReason::NoToolCalls,
{
    match &reply.tool_calls {
        Some(v) => if v.len() > 0 {
            None
        } else {
            Some(TurnStopReason::NoToolCalls)
        },
        None => Some(TurnStopReason::NoToolCalls),
    }
}

/// The number of steps a turn may take: the configured number, at least one.
pub fn max_steps(configured: usize) -> (r: usize)
    ensures
        r == (if configured == 0 { 1 } else { configured }),
{
    if configured == 0 {
        1
    } else {
        configured
    }
}

/// A message with one text part.
pub fn text_message(role: &str, text: String) -> (r: Message)
    ensures
        r.role@ == role@,
        parts_view(r.content@) == seq![(PartKind::Text, text@)],
        r.tool_calls is None,
        r.tool_call_id is None,
{
    let mut content = Vec::new();
    content.push(ContentPart::Text { text });
    assert(parts_view(content@) =~= seq![(PartKind::Text, text@)]);
    Message { role: role.to_string(), content, tool_calls: None, tool_call_id: None }
}

/// The reply given when no model is configured.
pub fn no_llm_reply() -> (r: Message)
    ensures
        r.role@ == "assistant"@,
        parts_view(r.content@) == seq![(PartKind::Text, "LLM client is not configured."@)],
        r.tool_calls is None,
        r.tool_call_id is None,
{
    text_message("assistant", "LLM client is not configured.".to_string())
}

/// The notice shown after a D-Mail sends the conversation back.
pub fn dmail_notice(checkpoint_id: usize, message: &str) -> (r: String)
    ensures
        r@ == "Reverted to checkpoint "@ + dec(checkpoint_id as nat) + ": "@ + message@,
{
    let mut m = chars_of("Reverted to checkpoint ");
    append_vec(&mut m, &dec_exec(checkpoint_id));
    append_vec(&mut m, &chars_of(": "));
    append_vec(&mut m, &chars_of(message));
    string_of(&m)
}

/// How one call the assistant asked for ended.
#[derive(Debug, Clone)]
pub enum CallOutcome {
    /// Refused before running: denied by a rule or rejected by the user.
    Refused(ToolResult),
    /// The tool ran and gave this result.
    Ran(ToolResult),
}

pub open spec fn outcome_result(o: CallOutcome) -> ToolResult {
    match o {
        CallOutcome::Refused(r) => r,
        CallOutcome::Ran(r) => r,
    }
}

/// The `tool` message a call's outcome is recorded as: a refusal as its
/// text (see `rejection_message`), a result as `tool_result_to_message`
/// writes it.
pub open spec fn outcome_message(o: CallOutcome) -> MessageView {
    match o {
        CallOutcome::Refused(r) => MessageView {
            role: "tool"@,
            content: seq![(PartKind::Text, return_text_spec(r.return_value))],
            tool_calls: None,
            tool_call_id: Some(r.tool_call_id@),
        },
        CallOutcome::Ran(r) => MessageView {
            role: "tool"@,
            content: tool_content_spec(r.return_value),
            tool_calls: None,
            tool_call_id: Some(r.tool_call_id@),
        },
    }
}

/// The calls a message asks for.
pub open spec fn requested_calls(m: MessageView) -> Seq<(Seq<char>, Seq<char>, Seq<char>)> {
    match m.tool_calls {
        Some(c) => c,
        None => Seq::empty(),
    }
}

fn outcome_to_message(o: &CallOutcome) -> (r: Message)
    ensures
        r@ == outcome_message(*o),
{
    match o {
        CallOutcome::Refused(res) => {
            let m = rejection_message(res);
            assert(m@ == outcome_message(*o));
            m
        },
        CallOutcome::Ran(res) => {
            let m = tool_result_to_message(res);
            assert(m@ == outcome_message(*o));
            m
        },
    }
}

/// What a step adds to the context and how it ends, once the assistant has
/// answered: the assistant's message, then, when it asked for tools, one
/// `tool` message per call in the order asked (the step goes on); without
/// calls the turn ends. `outcomes` are the calls' outcomes, in order.
pub fn step_messages(assistant: Message, outcomes: Vec<CallOutcome>) -> (r: (Vec<Message>, Option<TurnStopReason>))
    requires
        requested_calls(assistant@).len() > 0 ==> outcomes@.len() == requested_calls(assistant@).len() && forall|i: int|
            0 <= i < outcomes@.len() ==> (#[trigger] outcome_result(outcomes@[i])).tool_call_id@
                == requested_calls(assistant@)[i].0,
    ensures
        requested_calls(assistant@).len() > 0 ==> r.1 is None && messages_view(r.0@) == seq![assistant@]
            + outcomes@.map_values(|o: CallOutcome| outcome_message(o)),
        requested_calls(assistant@).len() > 0 ==> forall|i: int|
            0 <= i < requested_calls(assistant@).len() ==> #[trigger] messages_view(r.0@)[i + 1].tool_call_id
                == Some(requested_calls(assistant@)[i].0),
        requested_calls(assistant@).len() == 0 ==> r.1 == Some(TurnStopReason::NoToolCalls) && messages_view(r.0@)
            == seq![assistant@],
{
    let ghost av = assistant@;
    let asks = match &assistant.tool_calls {
        Some(c) => c.len() > 0,
        None => false,
    };
    let mut out: Vec<Message> = Vec::new();
    out.push(assistant);
    assert(messages_view(out@) =~= seq![av]);
    if !asks {
        return (out, Some(TurnStopReason::NoToolCalls));
    }
    let mut i: usize = 0;
    while i < outcomes.len()
        invariant
            i <= outcomes@.len(),
            messages_view(out@) == seq![av] + outcomes@.subrange(0, i as int).map_values(
                |o: CallOutcome| outcome_message(o),
            ),
        decreases outcomes.len() - i,
    {
        let m = outcome_to_message(&outcomes[i]);
        let ghost before = out@;
        out.push(m);
        assert(messages_view(out@) =~= messages_view(before).push(m@));
        assert(outcomes@.subrange(0, i + 1).map_values(|o: CallOutcome| outcome_message(o)) =~= outcomes@.subrange(
            0,
            i as int,
        ).map_values(|o: CallOutcome| outcome_message(o)).push(outcome_message(outcomes@[i as int])));
        i += 1;
    }
    assert(outcomes@.subrange(0, outcomes.len() as int) =~= outcomes@);
    proof {
        assert forall|k: int| 0 <= k < requested_calls(av).len() implies #[trigger] messages_view(out@)[k + 1].tool_call_id
            == Some(requested_calls(av)[k].0) by {
            assert(messages_view(out@)[k + 1] == outcome_message(outcomes@[k]));
            assert(outcome_result(outcomes@[k]).tool_call_id@ == requested_calls(av)[k].0);
        }
    }
    (out, None)
}

/// What the agent loop does after a step.
#[derive(Debug)]
pub enum AfterStep {
    /// The turn ends for this reason.
    Stop(TurnStopReason),
    /// A D-Mail arrived: go back to its checkpoint, show the notice, and
    /// end the turn as rejected.
    Revert { checkpoint_id: usize, notice: String },
    /// Take the next step.
    Next,
}

/// Decides what follows a step: a step that ended the turn ends it; else a
/// pending D-Mail sends the conversation back; else the loop goes on.
pub fn after_step(step_result: Option<TurnStopReason>, pending_dmail: Option<DMail>) -> (r: AfterStep)
    ensures
        match step_result {
            Some(reason) => r == AfterStep::Stop(reason),
            None => match pending_dmail {
                Some(d) => r matches AfterStep::Revert { checkpoint_id, notice } && checkpoint_id == d.checkpoint_id
                    && notice@ == "Reverted to checkpoint "@ + dec(d.checkpoint_id as nat) + ": "@ + d.message@,
                None => r is Next,
            },
        },
{
    match step_result {
        Some(reason) => AfterStep::Stop(reason),
        None => match pending_dmail {
            Some(d) => {
                let notice = dmail_notice(d.checkpoint_id, d.message.as_str());
                AfterStep::Revert { checkpoint_id: d.checkpoint_id, notice }
            },
            None => AfterStep::Next,
        },
    }
}

/// The name a stop reason is reported under when a turn ends.
pub fn stop_reason_name(reason: TurnStopReason) -> (r: String)
    ensures
        r@ == match reason {
            TurnStopReason::NoToolCalls => "NoToolCalls"@,
            TurnStopReason::ToolRejected => "ToolRejected"@,
            TurnStopReason::MaxStepsReached => "MaxStepsReached"@,
            TurnStopReason::Cancelled => "Cancelled"@,
        },
{
    match reason {
        TurnStopReason::NoToolCalls => "NoToolCalls".to_string(),
        TurnStopReason::ToolRejected => "ToolRejected".to_string(),
        TurnStopReason::MaxStepsReached => "MaxStepsReached".to_string(),
        TurnStopReason::Cancelled => "Cancelled".to_string(),
    }
}

/// A slash command in the user's text, `/name args`: the name runs to the
/// first space, the arguments are what follows it.
pub open spec fn slash_command_spec(text: Seq<char>) -> Option<(Seq<char>, Seq<char>)> {
    if text.len() > 0 && text[0] == '/' {
        let rest = text.subrange(1, text.len() as int);
        match find_char_from(rest, ' ', 0) {
            Some(i) => Some((rest.subrange(0, i), rest.subrange(i + 1, rest.len() as int))),
            None => Some((rest, Seq::empty())),
        }
    } else {
        None
    }
}

/// Splits a slash command into its name and arguments (see
/// `slash_command_spec`); `None` when the text does not start with `/`.
pub fn parse_slash_command(text: &str) -> (r: Option<(String, String)>)
    ensures
        match slash_command_spec(text@) {
            Some((n, a)) => r matches Some((rn, ra)) && rn@ == n && ra@ == a,
            None => r is None,
        },
{
    let t = chars_of(text);
    if t.len() == 0 || t[0] != '/' {
        return None;
    }
    let rest = sub_vec(&t, 1, t.len());
    assert(rest@ =~= text@.subrange(1, text@.len() as int));
    match find_char_exec(&rest, ' ', 0) {
        Some(i) => {
            let name = sub_vec(&rest, 0, i);
            let args = sub_vec(&rest, i + 1, rest.len());
            Some((string_of(&name), string_of(&args)))
        },
        None => {
            let empty: Vec<char> = Vec::new();
            assert(empty@ =~= Seq::<char>::empty());
            Some((string_of(&rest), string_of(&empty)))
        },
    }
}

/// The text of the user's input: its text parts run together.
pub fn input_text(parts: &Vec<ContentPart>) -> (r: String)
    ensures
        r@ == join(text_parts(parts_view(parts@)), ""@),
{
    let m = Message { role: "user".to_string(), content: copy_parts(parts), tool_calls: None, tool_call_id: None };
    m.extract_text("")
}

/// The reply recorded after a slash command ran.
pub fn slash_reply(name: &str) -> (r: Message)
    ensures
        r.role@ == "assistant"@,
        parts_view(r.content@) == seq![(PartKind::Text, "Executed /"@ + name@)],
        r.tool_calls is None,
        r.tool_call_id is None,
{
    let mut m = chars_of("Executed /");
    append_vec(&mut m, &chars_of(name));
    text_message("assistant", string_of(&m))
}

/// The position of the last assistant message.
pub open spec fn last_assistant(h: Seq<MessageView>) -> Option<int>
    decreases h.len(),
{
    if h.len() == 0 {
        None
    } else if h.last().role == "assistant"@ {
        Some(h.len() - 1)
    } else {
        last_assistant(h.drop_last())
    }
}

/// A copy of the last assistant message of a history, the turn's final
/// message.
pub fn final_assistant_message(history: &Vec<Message>) -> (r: Option<Message>)
    ensures
        match last_assistant(messages_view(history@)) {
            Some(i) => r matches Some(m) && m@ == history@[i]@,
            None => r is None,
        },
{
    let ghost h = messages_view(history@);
    assert(h.subrange(0, history.len() as int) =~= h);
    let mut k = history.len();
    while k > 0
        invariant
            k <= history.len(),
            h == messages_view(history@),
            last_assistant(h) == last_assistant(h.subrange(0, k as int)),
        decreases k,
    {
        assert(h.subrange(0, k as int).drop_last() =~= h.subrange(0, k - 1));
        if eq_vec(&chars_of(history[k - 1].role.as_str()), &chars_of("assistant")) {
            return Some(history[k - 1].copy());
        }
        k -= 1;
    }
    None
}

/// The title a first turn gives a session: the first 40 characters of the
/// final message's text, when there is any.
pub open spec fn title_from(m: MessageView) -> Option<Seq<char>> {
    let t = join(text_parts(m.content), ""@);
    let t40 = if t.len() > 40 { t.subrange(0, 40) } else { t };
    if t40.len() > 0 { Some(t40) } else { None }
}

/// After a turn: on the session's first attempt, the title to give it (if
/// the final message has text) and the attempt counted; afterwards nothing.
pub fn first_turn_title(attempts: u32, final_message: Option<&Message>) -> (r: (Option<String>, u32))
    ensures
        attempts == 0 ==> r.1 == 1 && match final_message {
            Some(m) => match title_from(m@) {
                Some(t) => r.0 matches Some(s) && s@ == t,
                None => r.0 is None,
            },
            None => r.0 is None,
        },
        attempts != 0 ==> r.0 is None && r.1 == attempts,
{
    if attempts != 0 {
        return (None, attempts);
    }
    let title = match final_message {
        Some(m) => {
            let t = chars_of(m.extract_text("").as_str());
            let t40 = if t.len() > 40 {
                sub_vec(&t, 0, 40)
            } else {
                t
            };
            if t40.len() > 0 {
                Some(string_of(&t40))
            } else {
                None
            }
        },
        None => None,
    };
    (title, 1)
}

} // verus!
