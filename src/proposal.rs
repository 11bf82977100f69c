//! One governed action together with the votes cast on it.
use vstd::prelude::*;

use crate::ids::{contains_id, lemma_without, without, without_id, AccountId, MemberId, ProgramId};

verus! {

/// Where a proposal stands in its lifecycle.
#[derive(Clone, Copy, Debug, PartialEq, Eq, Structural)]
pub enum ProposalStatus {
    /// Accepting votes.
    Active,
    /// Reached its threshold and was carried out.
    Executed,
    /// Too many members rejected it for the threshold ever to be reached.
    Rejected,
    /// Withdrawn; no instruction leads here yet.
    Cancelled,
}

/// The operation that a proposal asks the members to authorize.
#[derive(Clone, Debug, PartialEq)]
pub enum ProposalAction {
    /// Move funds out of the group's custody to `recipient`.
    Transfer { recipient: AccountId, amount: u128 },
    /// Admit a new member.
    AddMember { new_member: MemberId },
    /// Take a member off the roster.
    RemoveMember { member_to_remove: MemberId },
    /// Set a new approval threshold.
    ChangeThreshold { new_threshold: u8 },
    /// Call another program with the given payload; the accounts at
    /// `authorized_indices` of the call are authorized by this group.
    Call {
        target_program_id: ProgramId,
        instruction_data: Vec<u8>,
        target_account_count: u8,
        pda_seeds: Vec<[u8; 32]>,
        authorized_indices: Vec<u8>,
    },
}

/// A proposal and the members who approved or rejected it.
#[derive(Clone, Debug)]
pub struct Proposal {
    /// Unique, 1-based, handed out in increasing order.
    pub index: u64,
    pub action: ProposalAction,
    pub proposer: MemberId,
    /// Members who approved; the proposer approves on creation.
    pub approved: Vec<MemberId>,
    /// Members who rejected.
    pub rejected: Vec<MemberId>,
    pub status: ProposalStatus,
}

/// The mathematical value of a [`Proposal`]: its vote lists as sequences.
pub struct ProposalView {
    pub index: u64,
    pub action: ProposalAction,
    pub proposer: MemberId,
    pub approved: Seq<MemberId>,
    pub rejected: Seq<MemberId>,
    pub status: ProposalStatus,
}

impl View for Proposal {
    type V = ProposalView;

    open spec fn view(&self) -> ProposalView {
        ProposalView {
            index: self.index,
            action: self.action,
            proposer: self.proposer,
            approved: self.approved@,
            rejected: self.rejected@,
            status: self.status,
        }
    }
}

/// A proposal as it is born: active, approved by its proposer alone.
pub open spec fn fresh_proposal(index: u64, action: ProposalAction, proposer: MemberId) -> ProposalView {
    ProposalView {
        index,
        action,
        proposer,
        approved: seq![proposer],
        rejected: Seq::empty(),
        status: ProposalStatus::Active,
    }
}

/// The vote lists hold no member twice, and no member in both.
pub open spec fn votes_wf(p: ProposalView) -> bool {
    &&& p.approved.no_duplicates()
    &&& p.rejected.no_duplicates()
    &&& forall|m: MemberId| !(#[trigger] p.approved.contains(m) && p.rejected.contains(m))
}

/// `p` after `m` approves it: a repeated approval changes nothing, and an
/// approval replaces an earlier rejection.
pub open spec fn approved_by(p: ProposalView, m: MemberId) -> ProposalView {
    if p.approved.contains(m) {
        p
    } else {
        ProposalView { approved: p.approved.push(m), rejected: without(p.rejected, m), ..p }
    }
}

/// `p` after `m` rejects it: a repeated rejection changes nothing, and a
/// rejection replaces an earlier approval.
pub open spec fn rejected_by(p: ProposalView, m: MemberId) -> ProposalView {
    if p.rejected.contains(m) {
        p
    } else {
        ProposalView { rejected: p.rejected.push(m), approved: without(p.approved, m), ..p }
    }
}

/// The approvals reach `threshold`.
pub open spec fn meets_threshold(p: ProposalView, threshold: u8) -> bool {
    p.approved.len() >= threshold
}

/// Fewer members than `threshold` are left who have not rejected `p`, so it
/// can never reach quorum. A member who has not voted still counts.
pub open spec fn dead(p: ProposalView, threshold: u8, member_count: u8) -> bool {
    member_count - p.rejected.len() < threshold
}

/// Pushing a member that is absent keeps a sequence free of duplicates.
pub proof fn lemma_push_no_duplicates(s: Seq<MemberId>, m: MemberId)
    requires
        s.no_duplicates(),
        !s.contains(m),
    ensures
        s.push(m).no_duplicates(),
        forall|x: MemberId| #[trigger] s.push(m).contains(x) <==> (s.contains(x) || x == m),
{
    assert forall|i: int, j: int|
        0 <= i < s.len() + 1 && 0 <= j < s.len() + 1 && i != j implies
        #[trigger] s.push(m)[i] != #[trigger] s.push(m)[j] by {
        if i == s.len() {
            assert(s.contains(s[j]));
        } else if j == s.len() {
            assert(s.contains(s[i]));
        }
    }
    assert forall|x: MemberId| #[trigger] s.push(m).contains(x) implies (s.contains(x) || x == m) by {
        let k = choose|k: int| 0 <= k < s.len() + 1 && s.push(m)[k] == x;
        if k < s.len() {
            assert(s[k] == x);
        }
    }
    assert forall|x: MemberId| s.contains(x) implies #[trigger] s.push(m).contains(x) by {
        let k = choose|k: int| 0 <= k < s.len() && s[k] == x;
        assert(s.push(m)[k] == x);
    }
    assert(s.push(m)[s.len() as int] == m);
}

/// An approval or a rejection keeps the vote lists apart and free of
/// duplicates.
pub proof fn lemma_votes_wf_kept(p: ProposalView, m: MemberId)
    requires
        votes_wf(p),
    ensures
        votes_wf(approved_by(p, m)),
        votes_wf(rejected_by(p, m)),
{
    lemma_without(p.rejected, m);
    lemma_without(p.approved, m);
    if !p.approved.contains(m) {
        lemma_push_no_duplicates(p.approved, m);
    }
    if !p.rejected.contains(m) {
        lemma_push_no_duplicates(p.rejected, m);
    }
}

impl Proposal {
    /// A new active proposal, approved by its proposer.
    pub fn new(index: u64, action: ProposalAction, proposer: MemberId) -> (r: Self)
        ensures
            r@ == fresh_proposal(index, action, proposer),
    {
        let mut approved: Vec<MemberId> = Vec::new();
        approved.push(proposer);
        let r = Proposal {
            index,
            action,
            proposer,
            approved,
            rejected: Vec::new(),
            status: ProposalStatus::Active,
        };
        assert(r@.approved =~= seq![proposer]);
        assert(r@.rejected =~= Seq::<MemberId>::empty());
        r
    }

    /// Records an approval by `member`; true when it was not already
    /// among the approvals.
    pub fn approve(&mut self, member: MemberId) -> (r: bool)
        ensures
            r == !old(self)@.approved.contains(member),
            final(self)@ == approved_by(old(self)@, member),
    {
        if contains_id(&self.approved, &member) {
            return false;
        }
        self.rejected = without_id(&self.rejected, &member);
        self.approved.push(member);
        true
    }

    /// Records a rejection by `member`; true when it was not already
    /// among the rejections.
    pub fn reject(&mut self, member: MemberId) -> (r: bool)
        ensures
            r == !old(self)@.rejected.contains(member),
            final(self)@ == rejected_by(old(self)@, member),
    {
        if contains_id(&self.rejected, &member) {
            return false;
        }
        self.approved = without_id(&self.approved, &member);
        self.rejected.push(member);
        true
    }

    /// Whether the approvals reach `threshold`.
    pub fn has_threshold(&self, threshold: u8) -> (r: bool)
        ensures
            r == meets_threshold(self@, threshold),
    {
        self.approved.len() >= threshold as usize
    }

    /// Whether the proposal can no longer reach `threshold` among
    /// `member_count` members.
    pub fn is_dead(&self, threshold: u8, member_count: u8) -> (r: bool)
        ensures
            r == dead(self@, threshold, member_count),
    {
        let rejections = self.rejected.len();
        if rejections > member_count as usize {
            true
        } else {
            ((member_count as usize) - rejections) < threshold as usize
        }
    }
}

/// The name of a status, as shown to users.
pub fn status_str(status: &ProposalStatus) -> (r: &'static str)
    ensures
        r@ == match *status {
            ProposalStatus::Active => "Active"@,
            ProposalStatus::Executed => "Executed"@,
            ProposalStatus::Rejected => "Rejected"@,
            ProposalStatus::Cancelled => "Cancelled"@,
        },
{
    match status {
        ProposalStatus::Active => "Active",
        ProposalStatus::Executed => "Executed",
        ProposalStatus::Rejected => "Rejected",
        ProposalStatus::Cancelled => "Cancelled",
    }
}

} // verus!
