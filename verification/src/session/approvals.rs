//! Consent of one turn: which requests were made and how they were answered. A
//! request that gets no answer in time is denied.

use vstd::prelude::*;

use crate::events::{ApprovalKind, CoreEvent, CoreEventView, Decision};
use crate::text::{hex_of, same};

verus! {

/// How long a request may wait for a decision, in seconds.
pub const APPROVAL_TIMEOUT_SECS: u64 = 300;

/// A request of a turn, with its answer once it has one.
#[derive(Debug)]
pub struct Asked {
    pub id: String,
    pub answer: Option<Decision>,
}

/// The requests of a list by their ids.
pub open spec fn asked_map(v: Seq<Asked>) -> Map<Seq<char>, Option<Decision>>
    decreases v.len(),
{
    if v.len() == 0 {
        Map::empty()
    } else {
        asked_map(v.drop_last()).insert(v.last().id@, v.last().answer)
    }
}

/// The requests of a turn whose outcome nobody has taken yet.
#[derive(Debug)]
pub struct SessionApprovals {
    asked: Vec<Asked>,
    next_id: u64,
}

/// The content of [`SessionApprovals`].
#[verifier::ext_equal]
pub struct ApprovalsView {
    /// The requests by their ids; `None` waits for a decision.
    pub asked: Map<Seq<char>, Option<Decision>>,
    /// The number of the next request.
    pub next_id: u64,
}

impl View for SessionApprovals {
    type V = ApprovalsView;

    closed spec fn view(&self) -> ApprovalsView {
        ApprovalsView { asked: asked_map(self.asked@), next_id: self.next_id }
    }
}

/// The id of the request with a number.
pub open spec fn approval_id(n: u64) -> Seq<char> {
    "appr"@ + crate::text::hex(n as nat)
}

/// No request was made yet.
pub open spec fn no_approvals() -> ApprovalsView {
    ApprovalsView { asked: Map::empty(), next_id: 1 }
}

/// The requests after a new one.
pub open spec fn requested(a: ApprovalsView) -> ApprovalsView {
    ApprovalsView {
        asked: a.asked.insert(approval_id(a.next_id), None),
        next_id: if a.next_id == u64::MAX {
            0
        } else {
            (a.next_id + 1) as u64
        },
    }
}

/// Whether a request waits for a decision.
pub open spec fn waits(a: ApprovalsView, id: Seq<char>) -> bool {
    a.asked.dom().contains(id) && a.asked[id] is None
}

/// The requests after a decision: only one that waits takes it.
pub open spec fn resolved(a: ApprovalsView, id: Seq<char>, d: Decision) -> ApprovalsView {
    if waits(a, id) {
        ApprovalsView { asked: a.asked.insert(id, Some(d)), next_id: a.next_id }
    } else {
        a
    }
}

/// The requests once the outcome of one of them was taken.
pub open spec fn settled(a: ApprovalsView, id: Seq<char>) -> ApprovalsView {
    ApprovalsView { asked: a.asked.remove(id), next_id: a.next_id }
}

/// The outcome of a request: what was decided, and else a refusal.
pub open spec fn outcome(a: ApprovalsView, id: Seq<char>) -> Decision {
    if a.asked.dom().contains(id) {
        match a.asked[id] {
            Some(d) => d,
            None => Decision::Deny,
        }
    } else {
        Decision::Deny
    }
}

impl SessionApprovals {
    /// No request was made yet.
    pub fn new() -> (r: SessionApprovals)
        ensures
            r@ == no_approvals(),
    {
        SessionApprovals { asked: Vec::new(), next_id: 1 }
    }

    /// Opens a request; gives its id and the event that shows it.
    pub fn request(&mut self, kind: ApprovalKind, summary: &str) -> (r: (String, CoreEvent))
        ensures
            final(self)@ == requested(old(self)@),
            r.0@ == approval_id(old(self)@.next_id),
            r.1@ == (CoreEventView::ApprovalRequest {
                id: approval_id(old(self)@.next_id),
                kind: kind@,
                summary: summary@,
            }),
    {
        let mut id = "appr".to_owned();
        id.append(hex_of(self.next_id as u128).as_str());
        self.next_id = self.next_id.wrapping_add(1);
        self.asked.push(Asked { id: id.clone(), answer: None });
        assert(self.asked@.drop_last() =~= old(self).asked@);
        (id.clone(), CoreEvent::ApprovalRequest { id, kind, summary: summary.to_owned() })
    }

    /// The answer of a request that was made; `None` for an unknown id.
    fn find(&self, request_id: &str) -> (r: Option<Option<Decision>>)
        ensures
            r is Some <==> self@.asked.dom().contains(request_id@),
            r matches Some(answer) ==> answer == self@.asked[request_id@],
    {
        let mut found: Option<Option<Decision>> = None;
        let mut i: usize = 0;
        while i < self.asked.len()
            invariant
                i <= self.asked.len(),
                found is Some <==> asked_map(self.asked@.take(i as int)).dom().contains(
                    request_id@,
                ),
                found matches Some(answer) ==> answer == asked_map(
                    self.asked@.take(i as int),
                )[request_id@],
            decreases self.asked.len() - i,
        {
            if same(self.asked[i].id.as_str(), request_id) {
                found = Some(self.asked[i].answer);
            }
            assert(self.asked@.take(i + 1).drop_last() =~= self.asked@.take(i as int));
            i = i + 1;
        }
        assert(self.asked@.take(i as int) =~= self.asked@);
        found
    }

    /// Forgets a request.
    fn forget(&mut self, request_id: &str)
        ensures
            final(self)@ == settled(old(self)@, request_id@),
    {
        let mut kept: Vec<Asked> = Vec::new();
        let mut i: usize = 0;
        while i < self.asked.len()
            invariant
                i <= self.asked.len(),
                asked_map(kept@) == asked_map(self.asked@.take(i as int)).remove(request_id@),
            decreases self.asked.len() - i,
        {
            let ghost before = kept@;
            let ghost map = asked_map(self.asked@.take(i as int));
            assert(self.asked@.take(i + 1).drop_last() =~= self.asked@.take(i as int));
            if !same(self.asked[i].id.as_str(), request_id) {
                kept.push(
                    Asked { id: self.asked[i].id.clone(), answer: self.asked[i].answer },
                );
                assert(kept@.drop_last() =~= before);
            }
            i = i + 1;
            assert(asked_map(kept@) =~= asked_map(self.asked@.take(i as int)).remove(request_id@));
        }
        assert(self.asked@.take(i as int) =~= self.asked@);
        self.asked = kept;
    }

    /// Delivers a decision to a request that waits; false when none with this id
    /// does.
    pub fn resolve(&mut self, request_id: &str, decision: Decision) -> (r: bool)
        ensures
            r == waits(old(self)@, request_id@),
            final(self)@ == resolved(old(self)@, request_id@, decision),
    {
        match self.find(request_id) {
            Some(None) => {
                self.forget(request_id);
                let ghost before = self.asked@;
                self.asked.push(Asked { id: request_id.to_owned(), answer: Some(decision) });
                assert(self.asked@.drop_last() =~= before);
                assert(self@.asked =~= old(self)@.asked.insert(request_id@, Some(decision)));
                true
            },
            _ => false,
        }
    }

    /// Takes the outcome of a request: what was decided, and a refusal where
    /// nothing was decided by now.
    pub fn settle(&mut self, request_id: &str) -> (r: Decision)
        ensures
            r == outcome(old(self)@, request_id@),
            final(self)@ == settled(old(self)@, request_id@),
    {
        let found = self.find(request_id);
        self.forget(request_id);
        match found {
            Some(Some(d)) => d,
            _ => Decision::Deny,
        }
    }
}

/// A request takes one decision: the first one stands, a second one finds
/// nothing that waits.
pub proof fn request_is_answered_once(a: ApprovalsView, id: Seq<char>, d: Decision, e: Decision)
    requires
        waits(a, id),
    ensures
        !waits(resolved(a, id, d), id),
        resolved(resolved(a, id, d), id, e) == resolved(a, id, d),
        outcome(resolved(a, id, d), id) == d,
{
}

/// Consent fails closed: a request that was allowed by nobody is denied.
pub proof fn unanswered_request_is_denied(a: ApprovalsView)
    ensures
        waits(requested(a), approval_id(a.next_id)),
        outcome(requested(a), approval_id(a.next_id)) == Decision::Deny,
{
}

/// Two requests of a turn have different ids.
pub proof fn approval_ids_differ(m: u64, n: u64)
    requires
        m != n,
    ensures
        approval_id(m) != approval_id(n),
{
    crate::text::lemma_hex_differs(m as nat, n as nat);
    let k = "appr"@.len() as int;
    assert(approval_id(m).skip(k) =~= crate::text::hex(m as nat));
    assert(approval_id(n).skip(k) =~= crate::text::hex(n as nat));
}

/// A new request, a decision and a settlement touch one request: every other one
/// is there as before, with the answer it had.
pub proof fn other_requests_are_untouched(
    a: ApprovalsView,
    id: Seq<char>,
    d: Decision,
    other: Seq<char>,
)
    requires
        other != id,
    ensures
        outcome(resolved(a, id, d), other) == outcome(a, other),
        waits(resolved(a, id, d), other) == waits(a, other),
        outcome(settled(a, id), other) == outcome(a, other),
        waits(settled(a, id), other) == waits(a, other),
        other != approval_id(a.next_id) ==> outcome(requested(a), other) == outcome(a, other)
            && waits(requested(a), other) == waits(a, other),
{
}

/// A settled request is gone: it takes no decision any more, and whoever asks
/// for it again is denied.
pub proof fn settled_request_is_gone(a: ApprovalsView, id: Seq<char>, d: Decision)
    ensures
        !waits(settled(a, id), id),
        resolved(settled(a, id), id, d) == settled(a, id),
        outcome(settled(a, id), id) == Decision::Deny,
{
}

/// Consent is given by a decision alone: what is allowed was allowed, for this
/// request.
pub proof fn only_a_decision_allows(a: ApprovalsView, id: Seq<char>)
    ensures
        outcome(a, id) == Decision::Allow ==> a.asked.dom().contains(id) && a.asked[id] == Some(
            Decision::Allow,
        ),
        outcome(no_approvals(), id) == Decision::Deny,
{
}

} // verus!
