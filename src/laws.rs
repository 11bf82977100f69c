//! Properties of the engine that span several operations or every state.
use vstd::prelude::*;

use crate::handlers::{approve_step, execute_outcome, propose_step, reject_step, Effect};
use crate::ids::{lemma_without, AccountRef, MemberId};
use crate::proposal::{
    approved_by, fresh_proposal, lemma_push_no_duplicates, lemma_votes_wf_kept, rejected_by,
    votes_wf, ProposalAction, ProposalView,
};
use crate::state::{first_at, lemma_position_unique, position, MultisigError, MultisigView};

verus! {

/// A proposal starts out approved by its proposer alone: the proposal that
/// `Propose` adds carries the returned index, is active, and has exactly
/// the proposer among its approvals and nobody among its rejections.
pub proof fn lemma_proposer_approves(s: MultisigView, signer: MemberId, action: ProposalAction)
    ensures
        ({
            let (t, r) = propose_step(s, signer, action);
            r matches Ok(i) ==> {
                &&& t.proposals.last() == fresh_proposal(i, action, signer)
                &&& t.proposals.last().approved == seq![signer]
                &&& t.proposals.last().rejected.len() == 0
            }
        }),
{
}

/// Approving twice is the same as approving once: the second approval by
/// the same member changes nothing, the size of the approvals included, and
/// reports that it added no approval.
pub proof fn lemma_approve_idempotent(s: MultisigView, m: MemberId, index: u64)
    ensures
        ({
            let (t1, r1) = approve_step(s, m, index);
            let (t2, r2) = approve_step(t1, m, index);
            r1 is Ok ==> {
                &&& t2 == t1
                &&& r2 == Ok::<bool, MultisigError>(false)
                &&& t2.proposals[position(s.proposals, index)->0].approved.len()
                    == t1.proposals[position(s.proposals, index)->0].approved.len()
            }
        }),
{
    let (t1, r1) = approve_step(s, m, index);
    if r1 is Ok {
        let i = position(s.proposals, index)->0;
        let k = choose|k: int| first_at(s.proposals, index, k);
        assert(first_at(s.proposals, index, k));
        assert(first_at(t1.proposals, index, i));
        lemma_position_unique(t1.proposals, index, i);
        let p = approved_by(s.proposals[i], m);
        assert(p.approved.contains(m)) by {
            if !s.proposals[i].approved.contains(m) {
                assert(p.approved[p.approved.len() - 1] == m);
            }
        }
        assert(t1.proposals.update(i, approved_by(t1.proposals[i], m)) =~= t1.proposals);
    }
}

/// A vote replaces the member's opposite vote: after an approval and then
/// a rejection the member is among the rejections only, and the other way
/// round; the two lists stay disjoint and free of duplicates throughout.
pub proof fn lemma_vote_switch(p: ProposalView, m: MemberId)
    requires
        votes_wf(p),
    ensures
        rejected_by(approved_by(p, m), m).rejected.contains(m),
        !rejected_by(approved_by(p, m), m).approved.contains(m),
        approved_by(rejected_by(p, m), m).approved.contains(m),
        !approved_by(rejected_by(p, m), m).rejected.contains(m),
        votes_wf(rejected_by(approved_by(p, m), m)),
        votes_wf(approved_by(rejected_by(p, m), m)),
{
    lemma_votes_wf_kept(p, m);
    let a = approved_by(p, m);
    let r = rejected_by(p, m);
    lemma_votes_wf_kept(a, m);
    lemma_votes_wf_kept(r, m);
    lemma_without(a.approved, m);
    lemma_without(a.rejected, m);
    lemma_without(r.approved, m);
    lemma_without(r.rejected, m);
    lemma_without(p.approved, m);
    lemma_without(p.rejected, m);
    if !p.approved.contains(m) {
        lemma_push_no_duplicates(p.approved, m);
    }
    if !p.rejected.contains(m) {
        lemma_push_no_duplicates(p.rejected, m);
    }
    if !a.rejected.contains(m) {
        lemma_push_no_duplicates(a.rejected, m);
    }
    if !r.approved.contains(m) {
        lemma_push_no_duplicates(r.approved, m);
    }
}

/// Proposal indices are fresh: the index `Propose` hands out exceeds the
/// counter before it, and with it every index handed out before, whether
/// that proposal is still live or was pruned; the counter moves up to it.
pub proof fn lemma_index_fresh(s: MultisigView, signer: MemberId, action: ProposalAction)
    requires
        s.wf(),
    ensures
        ({
            let (t, r) = propose_step(s, signer, action);
            r matches Ok(i) ==> {
                &&& i == s.transaction_index + 1
                &&& t.transaction_index == i
                &&& forall|k: int| 0 <= k < s.proposals.len() ==> #[trigger] s.proposals[k].index < i
                &&& forall|k: int| 0 <= k < t.proposals.len() - 1 ==> #[trigger] t.proposals[k].index < i
            }
        }),
{
    let (t, r) = propose_step(s, signer, action);
    if r is Ok {
        crate::state::lemma_active_only_wf(s.proposals, s.transaction_index);
    }
}

/// The proposal counter never goes down: no instruction, accepted or
/// refused, lowers it, and only an accepted `Propose` raises it.
pub proof fn lemma_counter_monotone(
    s: MultisigView,
    signer: MemberId,
    action: ProposalAction,
    index: u64,
    executor: AccountRef,
    targets: Seq<AccountRef>,
    t: MultisigView,
    r: Result<Effect, MultisigError>,
)
    ensures
        propose_step(s, signer, action).0.transaction_index >= s.transaction_index,
        approve_step(s, signer, index).0.transaction_index == s.transaction_index,
        reject_step(s, signer, index).0.transaction_index == s.transaction_index,
        execute_outcome(s, executor, index, targets, t, r) ==> t.transaction_index
            == s.transaction_index,
{
}

} // verus!
