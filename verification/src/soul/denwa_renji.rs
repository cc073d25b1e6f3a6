//! D-Mail: a message sent back to an earlier checkpoint of the context.
use crate::error::KimiCliError;
use vstd::prelude::*;

verus! {

/// D-Mail message for reverting the context to a checkpoint.
#[derive(Debug, Clone)]
pub struct DMail {
    pub message: String,
    pub checkpoint_id: usize,
}

pub open spec fn dmail_view(d: DMail) -> (Seq<char>, nat) {
    (d.message@, d.checkpoint_id as nat)
}

/// The booth that holds at most one pending D-Mail for a known number of
/// checkpoints.
#[derive(Debug, Clone)]
pub struct DenwaRenji {
    pending_dmail: Option<DMail>,
    n_checkpoints: usize,
}

/// The booth's state: the pending D-Mail and the number of checkpoints.
pub struct DenwaView {
    pub pending: Option<(Seq<char>, nat)>,
    pub n_checkpoints: nat,
}

impl View for DenwaRenji {
    type V = DenwaView;

    closed spec fn view(&self) -> DenwaView {
        DenwaView {
            pending: match self.pending_dmail {
                Some(d) => Some(dmail_view(d)),
                None => None,
            },
            n_checkpoints: self.n_checkpoints as nat,
        }
    }
}

/// What sending a D-Mail does: refused while one is pending or when its
/// checkpoint does not exist; otherwise it becomes the pending one.
pub open spec fn send_spec(s: DenwaView, d: (Seq<char>, nat)) -> Result<DenwaView, Seq<char>> {
    if s.pending is Some {
        Err("Only one D-Mail can be sent at a time"@)
    } else if d.1 >= s.n_checkpoints {
        Err("There is no checkpoint with the given ID"@)
    } else {
        Ok(DenwaView { pending: Some(d), ..s })
    }
}

impl Default for DenwaRenji {
    fn default() -> (r: Self)
        ensures
            r@.pending is None,
            r@.n_checkpoints == 0,
    {
        DenwaRenji { pending_dmail: None, n_checkpoints: 0 }
    }
}

impl DenwaRenji {
    /// Sends a D-Mail to revert to a checkpoint (see `send_spec`); a refused
    /// D-Mail leaves the booth as it was.
    pub fn send_dmail(&mut self, dmail: DMail) -> (r: Result<(), KimiCliError>)
        ensures
            match send_spec(old(self)@, dmail_view(dmail)) {
                Ok(s) => r is Ok && final(self)@ == s,
                Err(m) => r matches Err(KimiCliError::Generic(e)) && e@ == m && final(self)@ == old(self)@,
            },
    {
        if self.pending_dmail.is_some() {
            return Err(KimiCliError::Generic("Only one D-Mail can be sent at a time".to_string()));
        }
        if dmail.checkpoint_id >= self.n_checkpoints {
            return Err(KimiCliError::Generic("There is no checkpoint with the given ID".to_string()));
        }
        self.pending_dmail = Some(dmail);
        Ok(())
    }

    /// Sets the number of known checkpoints.
    pub fn set_n_checkpoints(&mut self, n: usize)
        ensures
            final(self)@ == (DenwaView { n_checkpoints: n as nat, ..old(self)@ }),
    {
        self.n_checkpoints = n;
    }

    /// Fetches and clears the pending D-Mail.
    pub fn fetch_pending_dmail(&mut self) -> (r: Option<DMail>)
        ensures
            match r {
                Some(d) => old(self)@.pending == Some(dmail_view(d)),
                None => old(self)@.pending is None,
            },
            final(self)@ == (DenwaView { pending: None, ..old(self)@ }),
    {
        self.pending_dmail.take()
    }
}

/// A D-Mail sent to an existing checkpoint of an empty booth is the one
/// fetched next, and fetching empties the booth again.
pub proof fn lemma_send_then_fetch(s: DenwaView, d: (Seq<char>, nat))
    requires
        s.pending is None,
        d.1 < s.n_checkpoints,
    ensures
        send_spec(s, d) matches Ok(s2) && s2.pending == Some(d) && (DenwaView {
            pending: None,
            ..s2
        }) == s,
{
}

/// While a D-Mail is pending, every other one is refused and nothing changes.
pub proof fn lemma_one_at_a_time(s: DenwaView, d: (Seq<char>, nat))
    requires
        s.pending is Some,
    ensures
        send_spec(s, d) == Err::<DenwaView, Seq<char>>("Only one D-Mail can be sent at a time"@),
{
}

} // verus!
