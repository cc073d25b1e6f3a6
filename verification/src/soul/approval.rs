//! Approval of tool calls: the result of a request, the auto-approve state,
//! and how a user's response is read.
use crate::error::{default_rejection_message, feedback_brief, feedback_message, rejected_brief, ToolRejectedError};
use crate::text::{chars_of, contains_string, eq_vec, strings_set, strings_view};
use vstd::prelude::*;

verus! {

/// Result of an approval request.
#[derive(Debug, Clone)]
pub struct ApprovalResult {
    pub approved: bool,
    pub feedback: String,
}

impl ApprovalResult {
    pub fn new(approved: bool, feedback: String) -> (r: Self)
        ensures
            r.approved == approved,
            r.feedback@ == feedback@,
    {
        ApprovalResult { approved, feedback }
    }

    /// An approval result without feedback.
    pub fn from_bool(approved: bool) -> (r: Self)
        ensures
            r.approved == approved,
            r.feedback@ == Seq::<char>::empty(),
    {
        ApprovalResult { approved, feedback: String::new() }
    }

    /// The rejection a refused call reports: the user's feedback when there
    /// is some, the default rejection otherwise.
    pub fn rejection_error(&self) -> (r: ToolRejectedError)
        ensures
            self.feedback@.len() > 0 ==> r.has_feedback && r.message@ == feedback_message(self.feedback@)
                && r.brief@ == feedback_brief(self.feedback@),
            self.feedback@.len() == 0 ==> !r.has_feedback && r.message@ == default_rejection_message()
                && r.brief@ == rejected_brief(),
    {
        if chars_of(self.feedback.as_str()).len() > 0 {
            return ToolRejectedError::default().with_feedback(self.feedback.clone());
        }
        ToolRejectedError::default()
    }
}

pub open spec fn strings_distinct(v: Seq<String>) -> bool {
    forall|a: int, b: int| 0 <= a < b < v.len() ==> v[a]@ != v[b]@
}

/// Approval state: YOLO mode, the actions approved for the session, and a
/// callback run when the state changes.
pub struct ApprovalState<F> {
    pub yolo: bool,
    pub auto_approve_actions: Vec<String>,
    pub on_change: Option<F>,
}

impl<F: Fn()> ApprovalState<F> {
    /// A state with the given settings; each action is kept once.
    pub fn new(yolo: bool, auto_approve_actions: Vec<String>, on_change: Option<F>) -> (r: Self)
        ensures
            r.yolo == yolo,
            strings_set(r.auto_approve_actions@) == strings_set(auto_approve_actions@),
            strings_distinct(r.auto_approve_actions@),
            r.has_callback() == on_change is Some,
    {
        let mut actions: Vec<String> = Vec::new();
        let mut i: usize = 0;
        while i < auto_approve_actions.len()
            invariant
                i <= auto_approve_actions.len(),
                strings_set(actions@) == strings_set(auto_approve_actions@.subrange(0, i as int)),
                strings_distinct(actions@),
            decreases auto_approve_actions.len() - i,
        {
            let a = auto_approve_actions[i].clone();
            let ghost before = actions@;
            assert(strings_view(auto_approve_actions@.subrange(0, i + 1)) =~= strings_view(auto_approve_actions@.subrange(0, i as int)).push(a@));
            proof {
                strings_view(auto_approve_actions@.subrange(0, i as int)).lemma_push_to_set_commute(a@);
            }
            if !contains_string(&actions, &a) {
                actions.push(a);
                assert(strings_view(actions@) =~= strings_view(before).push(a@));
                proof {
                    strings_view(before).lemma_push_to_set_commute(a@);
                }
                assert forall|x: int, y: int| 0 <= x < y < actions@.len() implies actions@[x]@ != actions@[y]@ by {
                    if y == before.len() {
                        assert(strings_view(before)[x] == before[x]@);
                    }
                }
            } else {
                assert(strings_set(before).insert(a@) =~= strings_set(before));
            }
            i += 1;
        }
        assert(auto_approve_actions@.subrange(0, auto_approve_actions.len() as int) =~= auto_approve_actions@);
        ApprovalState { yolo, auto_approve_actions: actions, on_change }
    }

    /// Whether a change callback is set.
    pub open spec fn has_callback(&self) -> bool {
        self.on_change is Some
    }

    /// The change callback can be run.
    pub open spec fn callback_ready(&self) -> bool {
        match self.on_change {
            Some(f) => f.requires(()),
            None => true,
        }
    }

    /// Runs the change callback once, if one is set; the state itself is
    /// left as it is.
    pub fn notify_change(&self)
        requires
            self.callback_ready(),
        ensures
            match self.on_change {
                Some(f) => f.ensures((), ()),
                None => true,
            },
    {
        match &self.on_change {
            Some(cb) => {
                cb();
            },
            None => {},
        }
    }

    /// Whether an action is approved without asking: in YOLO mode, or when
    /// it was approved for the session.
    pub fn is_auto_approved(&self, action: &String) -> (r: bool)
        ensures
            r == (self.yolo || strings_set(self.auto_approve_actions@).contains(action@)),
    {
        self.yolo || contains_string(&self.auto_approve_actions, action)
    }

    /// Approves an action for the rest of the session.
    pub fn approve_for_session(&mut self, action: String)
        requires
            strings_distinct(old(self).auto_approve_actions@),
        ensures
            strings_set(final(self).auto_approve_actions@) == strings_set(old(self).auto_approve_actions@).insert(action@),
            strings_distinct(final(self).auto_approve_actions@),
            final(self).yolo == old(self).yolo,
            final(self).has_callback() == old(self).has_callback(),
    {
        let ghost before = self.auto_approve_actions@;
        if !contains_string(&self.auto_approve_actions, &action) {
            self.auto_approve_actions.push(action);
            proof {
                assert(strings_view(self.auto_approve_actions@) =~= strings_view(before).push(action@));
                strings_view(before).lemma_push_to_set_commute(action@);
                assert forall|x: int, y: int| 0 <= x < y < self.auto_approve_actions@.len() implies self.auto_approve_actions@[x]@ != self.auto_approve_actions@[y]@ by {
                    if y == before.len() {
                        assert(strings_view(before)[x] == before[x]@);
                    }
                }
            }
        } else {
            assert(strings_set(before).insert(action@) =~= strings_set(before));
        }
    }
}

impl<F> Default for ApprovalState<F> {
    fn default() -> (r: Self)
        ensures
            !r.yolo,
            r.auto_approve_actions@.len() == 0,
    {
        ApprovalState { yolo: false, auto_approve_actions: Vec::new(), on_change: None }
    }
}

/// How a user's response to an approval request is read: `approve` and
/// `approve_for_session` approve (the latter for the rest of the session
/// too), `reject` refuses with the user's feedback, anything else refuses.
pub open spec fn response_spec(response: Seq<char>, feedback: Seq<char>) -> (bool, Seq<char>, bool) {
    if response == "approve"@ {
        (true, Seq::empty(), false)
    } else if response == "approve_for_session"@ {
        (true, Seq::empty(), true)
    } else if response == "reject"@ {
        (false, feedback, false)
    } else {
        (false, Seq::empty(), false)
    }
}

/// Reads a response: the approval result, and whether the action is now
/// approved for the session.
pub fn read_approval_response(response: &str, feedback: &str) -> (r: (ApprovalResult, bool))
    ensures
        (r.0.approved, r.0.feedback@, r.1) == response_spec(response@, feedback@),
{
    let v = chars_of(response);
    if eq_vec(&v, &chars_of("approve")) {
        (ApprovalResult::new(true, String::new()), false)
    } else if eq_vec(&v, &chars_of("approve_for_session")) {
        (ApprovalResult::new(true, String::new()), true)
    } else if eq_vec(&v, &chars_of("reject")) {
        (ApprovalResult::new(false, feedback.to_string()), false)
    } else {
        (ApprovalResult::new(false, String::new()), false)
    }
}

} // verus!
