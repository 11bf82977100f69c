//! The multisig configuration: threshold, roster, proposal counter and the
//! live proposals.
use vstd::prelude::*;

use crate::ids::{contains_id, same_id, MemberId, PdaSeed};
use crate::proposal::{fresh_proposal, votes_wf, Proposal, ProposalAction, ProposalStatus, ProposalView};

verus! {

/// One governance instance.
#[derive(Clone, Debug, Default)]
pub struct MultisigState {
    /// Approvals needed to execute (M).
    pub threshold: u8,
    /// Number of members (N); always the length of `members`.
    pub member_count: u8,
    /// The roster, without duplicates, in order of admission.
    pub members: Vec<MemberId>,
    /// The last proposal index handed out; it never decreases.
    pub transaction_index: u64,
    /// Live proposals, in order of creation.
    pub proposals: Vec<Proposal>,
}

/// The mathematical value of a [`MultisigState`].
pub struct MultisigView {
    pub threshold: u8,
    pub member_count: u8,
    pub members: Seq<MemberId>,
    pub transaction_index: u64,
    pub proposals: Seq<ProposalView>,
}

impl View for MultisigState {
    type V = MultisigView;

    open spec fn view(&self) -> MultisigView {
        MultisigView {
            threshold: self.threshold,
            member_count: self.member_count,
            members: self.members@,
            transaction_index: self.transaction_index,
            proposals: self.proposals@.map_values(|p: Proposal| p@),
        }
    }
}

/// Why an operation on a multisig was refused.
#[derive(Clone, Copy, Debug, PartialEq, Eq, Structural)]
pub enum MultisigError {
    /// The threshold, or the roster it applies to, would be invalid: zero,
    /// above the member count, duplicate members, or more members than fit
    /// in the count.
    InvalidThreshold,
    /// The signer is not a current member.
    NotAMember,
    /// The executor did not sign the transaction.
    NotSigner,
    /// No live proposal has the given index.
    ProposalNotFound,
    /// The proposal has already been resolved.
    ProposalNotActive,
    /// The proposal does not have enough approvals yet.
    ThresholdNotMet,
    /// The target accounts supplied do not match the count the proposal declared.
    AccountCountMismatch,
    /// Every proposal index has been used.
    IndexExhausted,
    /// The configuration already exists.
    AlreadyInitialized,
    /// The configuration does not exist yet.
    NotInitialized,
}

/// Proposal indices are at least 1, at most the counter, and strictly
/// increasing along the list.
pub open spec fn indices_ordered(ps: Seq<ProposalView>, transaction_index: u64) -> bool {
    &&& forall|i: int| 0 <= i < ps.len() ==> 1 <= #[trigger] ps[i].index <= transaction_index
    &&& forall|i: int, j: int| 0 <= i < j < ps.len() ==> #[trigger] ps[i].index < #[trigger] ps[j].index
}

/// Keeps the proposals that are still active.
pub open spec fn is_active() -> spec_fn(ProposalView) -> bool {
    |p: ProposalView| p.status == ProposalStatus::Active
}

/// The live set with resolved proposals pruned.
pub open spec fn active_only(ps: Seq<ProposalView>) -> Seq<ProposalView> {
    ps.filter(is_active())
}

/// `i` is the first position of `ps` that holds the proposal `index`.
pub open spec fn first_at(ps: Seq<ProposalView>, index: u64, i: int) -> bool {
    &&& 0 <= i < ps.len()
    &&& ps[i].index == index
    &&& forall|j: int| 0 <= j < i ==> ps[j].index != index
}

/// Where the proposal `index` stands in `ps`, if it is there.
pub open spec fn position(ps: Seq<ProposalView>, index: u64) -> Option<int> {
    if exists|i: int| first_at(ps, index, i) {
        Some(choose|i: int| first_at(ps, index, i))
    } else {
        None
    }
}

/// The test that keeps the identifiers on the roster `members`.
pub open spec fn on_roster(members: Seq<MemberId>) -> spec_fn(MemberId) -> bool {
    |x: MemberId| members.contains(x)
}

/// How many of `signers` are in `members`.
pub open spec fn count_in(signers: Seq<MemberId>, members: Seq<MemberId>) -> nat {
    signers.filter(on_roster(members)).len()
}

/// The arguments from which a configuration can be created: a threshold
/// between 1 and the number of members, distinct members, and no more
/// members than the count can hold.
pub open spec fn valid_config(threshold: u8, members: Seq<MemberId>) -> bool {
    &&& 1 <= threshold <= members.len()
    &&& members.len() <= u8::MAX
    &&& members.no_duplicates()
}

/// A freshly created configuration: no proposal made yet.
pub open spec fn initial_view(threshold: u8, members: Seq<MemberId>) -> MultisigView {
    MultisigView {
        threshold,
        member_count: members.len() as u8,
        members,
        transaction_index: 0,
        proposals: Seq::empty(),
    }
}

/// Whether some member occurs twice in `v`.
pub fn has_duplicates(v: &Vec<MemberId>) -> (r: bool)
    ensures
        r == !v@.no_duplicates(),
{
    let mut i: usize = 0;
    while i < v.len()
        invariant
            0 <= i <= v.len(),
            forall|a: int, b: int| 0 <= a < i && 0 <= b < v.len() && a != b ==> v@[a] != v@[b],
        decreases v.len() - i,
    {
        let mut j: usize = 0;
        while j < v.len()
            invariant
                0 <= i < v.len(),
                0 <= j <= v.len(),
                forall|a: int, b: int| 0 <= a < i && 0 <= b < v.len() && a != b ==> v@[a] != v@[b],
                forall|b: int| 0 <= b < j && b != i ==> v@[i as int] != v@[b],
            decreases v.len() - j,
        {
            if j != i && same_id(&v[i], &v[j]) {
                return true;
            }
            j = j + 1;
        }
        i = i + 1;
    }
    false
}

impl MultisigView {
    /// The invariants of a configuration.
    pub open spec fn wf(self) -> bool {
        &&& 1 <= self.threshold <= self.member_count
        &&& self.member_count == self.members.len()
        &&& self.members.no_duplicates()
        &&& indices_ordered(self.proposals, self.transaction_index)
        &&& forall|i: int| 0 <= i < self.proposals.len() ==> votes_wf(#[trigger] self.proposals[i])
    }
}

/// At most one position holds a given index, and a search that stops at
/// the first hit finds it.
pub proof fn lemma_position_unique(ps: Seq<ProposalView>, index: u64, i: int)
    requires
        first_at(ps, index, i),
    ensures
        position(ps, index) == Some(i),
{
    let k = choose|k: int| first_at(ps, index, k);
    assert(first_at(ps, index, k));
    if k < i {
        assert(ps[k].index != index);
    } else if i < k {
        assert(ps[i].index != index);
    }
}

/// Pruning keeps the order of the survivors, hence the order of indices and
/// the vote invariants.
pub proof fn lemma_active_only_wf(ps: Seq<ProposalView>, transaction_index: u64)
    requires
        indices_ordered(ps, transaction_index),
        forall|i: int| 0 <= i < ps.len() ==> votes_wf(#[trigger] ps[i]),
    ensures
        indices_ordered(active_only(ps), transaction_index),
        forall|i: int| 0 <= i < active_only(ps).len() ==> votes_wf(#[trigger] active_only(ps)[i]),
        forall|i: int| 0 <= i < active_only(ps).len() ==> (#[trigger] active_only(ps)[i]).status == ProposalStatus::Active,
        forall|p: ProposalView| #[trigger] active_only(ps).contains(p) ==> ps.contains(p),
    decreases ps.len(),
{
    reveal(Seq::filter);
    broadcast use vstd::seq_lib::group_filter_ensures;
    if ps.len() > 0 {
        let init = ps.drop_last();
        assert(forall|i: int| 0 <= i < init.len() ==> init[i] == ps[i]);
        lemma_active_only_wf(init, transaction_index);
        let w = active_only(init);
        let last = ps.last();
        if last.status == ProposalStatus::Active {
            assert(active_only(ps) == w.push(last));
            assert forall|i: int, j: int| 0 <= i < j < w.push(last).len() implies
                #[trigger] w.push(last)[i].index < #[trigger] w.push(last)[j].index by {
                if j == w.len() {
                    assert(w.contains(w[i]));
                    assert(init.contains(w[i]));
                    let k = choose|k: int| 0 <= k < init.len() && init[k] == w[i];
                    assert(ps[k] == w[i]);
                }
            }
            assert forall|p: ProposalView| #[trigger] w.push(last).contains(p) implies ps.contains(p) by {
                let k = choose|k: int| 0 <= k < w.push(last).len() && w.push(last)[k] == p;
                if k < w.len() {
                    assert(w.contains(w[k]));
                    assert(init.contains(p));
                    let k2 = choose|k2: int| 0 <= k2 < init.len() && init[k2] == p;
                    assert(ps[k2] == p);
                } else {
                    assert(ps[ps.len() - 1] == p);
                }
            }
        } else {
            assert(active_only(ps) == w);
            assert forall|p: ProposalView| #[trigger] w.contains(p) implies ps.contains(p) by {
                assert(init.contains(p));
                let k2 = choose|k2: int| 0 <= k2 < init.len() && init[k2] == p;
                assert(ps[k2] == p);
            }
        }
    }
}

impl MultisigState {
    /// A configuration over `members` with no proposals; it does not check
    /// the threshold (see [`MultisigState::create`]).
    pub fn new(threshold: u8, members: Vec<MemberId>) -> (r: Self)
        requires
            members@.len() <= u8::MAX,
        ensures
            r@.threshold == threshold,
            r@.member_count == members@.len(),
            r@.members == members@,
            r@.transaction_index == 0,
            r@.proposals == Seq::<ProposalView>::empty(),
    {
        let member_count = members.len() as u8;
        let r = MultisigState {
            threshold,
            member_count,
            members,
            transaction_index: 0,
            proposals: Vec::new(),
        };
        assert(r@.proposals =~= Seq::<ProposalView>::empty());
        r
    }

    /// A configuration for `threshold` of `members`, with no proposal yet;
    /// refused with `InvalidThreshold` unless the arguments are valid.
    pub fn create(threshold: u8, members: Vec<MemberId>) -> (r: Result<Self, MultisigError>)
        ensures
            r is Ok <==> valid_config(threshold, members@),
            match r {
                Ok(s) => s@ == initial_view(threshold, members@) && s@.wf(),
                Err(e) => e == MultisigError::InvalidThreshold,
            },
    {
        if threshold == 0 || members.len() > 255 || (threshold as usize) > members.len()
            || has_duplicates(&members) {
            return Err(MultisigError::InvalidThreshold);
        }
        let s = MultisigState::new(threshold, members);
        assert(s@.proposals =~= Seq::<ProposalView>::empty());
        Ok(s)
    }

    /// Whether `id` is a current member.
    pub fn is_member(&self, id: &MemberId) -> (r: bool)
        ensures
            r == self@.members.contains(*id),
    {
        contains_id(&self.members, id)
    }

    /// How many of `signers` are current members; each entry counts, so a
    /// repeated signer counts once per occurrence.
    pub fn count_valid_signers(&self, signers: &[[u8; 32]]) -> (r: usize)
        ensures
            r == count_in(signers@, self@.members),
    {
        let mut n: usize = 0;
        let mut i: usize = 0;
        while i < signers.len()
            invariant
                0 <= i <= signers@.len(),
                n == count_in(signers@.subrange(0, i as int), self@.members),
                n <= i,
            decreases signers.len() - i,
        {
            let x = signers[i];
            proof {
                let head = signers@.subrange(0, i as int);
                assert(signers@.subrange(0, i + 1) =~= head.push(x));
                head.lemma_filter_push(x, on_roster(self@.members));
            }
            if self.is_member(&x) {
                n = n + 1;
            }
            i = i + 1;
        }
        assert(signers@.subrange(0, signers@.len() as int) =~= signers@);
        n
    }

    /// The live proposal with the given index.
    pub fn get_proposal(&self, index: u64) -> (r: Option<&Proposal>)
        ensures
            match position(self@.proposals, index) {
                Some(i) => r matches Some(p) && p@ == self@.proposals[i],
                None => r is None,
            },
    {
        match self.find_position(index) {
            Some(i) => {
                assert(self.proposals@[i as int]@ == self@.proposals[i as int]);
                Some(&self.proposals[i])
            },
            None => None,
        }
    }

    /// The live proposal with the given index, for changing it in place.
    pub fn get_proposal_mut(&mut self, index: u64) -> (r: Option<&mut Proposal>)
        ensures
            match position(old(self)@.proposals, index) {
                Some(i) => {
                    &&& r is Some
                    &&& *r.unwrap() == old(self).proposals@[i]
                    &&& final(self).proposals@ == old(self).proposals@.update(i, *final(r.unwrap()))
                    &&& final(self).threshold == old(self).threshold
                    &&& final(self).member_count == old(self).member_count
                    &&& final(self).members == old(self).members
                    &&& final(self).transaction_index == old(self).transaction_index
                },
                None => r is None && final(self)@ == old(self)@,
            },
    {
        match self.find_position(index) {
            Some(i) => {
                Some(&mut self.proposals[i])
            },
            None => None,
        }
    }

    /// The position of the live proposal with the given index.
    pub fn find_position(&self, index: u64) -> (r: Option<usize>)
        ensures
            match r {
                Some(k) => k < self.proposals.len() && position(self@.proposals, index) == Some(k as int),
                None => position(self@.proposals, index) is None,
            },
    {
        let mut i: usize = 0;
        while i < self.proposals.len()
            invariant
                0 <= i <= self.proposals.len(),
                forall|j: int| 0 <= j < i ==> self@.proposals[j].index != index,
            decreases self.proposals.len() - i,
        {
            if self.proposals[i].index == index {
                proof {
                    assert(first_at(self@.proposals, index, i as int));
                    lemma_position_unique(self@.proposals, index, i as int);
                }
                return Some(i);
            }
            i = i + 1;
        }
        assert(!exists|k: int| first_at(self@.proposals, index, k));
        None
    }

    /// Appends a new active proposal under the next index and returns it.
    pub fn create_proposal(&mut self, action: ProposalAction, proposer: MemberId) -> (r: u64)
        requires
            old(self).transaction_index < u64::MAX,
        ensures
            r == old(self).transaction_index + 1,
            final(self)@ == (MultisigView {
                transaction_index: r,
                proposals: old(self)@.proposals.push(fresh_proposal(r, action, proposer)),
                ..old(self)@
            }),
    {
        self.transaction_index = self.transaction_index + 1;
        let index = self.transaction_index;
        let proposal = Proposal::new(index, action, proposer);
        self.proposals.push(proposal);
        assert(self@.proposals =~= old(self)@.proposals.push(fresh_proposal(index, action, proposer)));
        index
    }

    /// Drops every proposal that is no longer active.
    pub fn cleanup_proposals(&mut self)
        ensures
            final(self)@ == (MultisigView { proposals: active_only(old(self)@.proposals), ..old(self)@ }),
    {
        let mut i: usize = 0;
        let ghost ps = old(self)@.proposals;
        let ghost mut j: int = 0;
        while i < self.proposals.len()
            invariant
                0 <= i <= self.proposals.len(),
                0 <= j <= ps.len(),
                self.proposals.len() - i == ps.len() - j,
                ps == old(self)@.proposals,
                self.threshold == old(self).threshold,
                self.member_count == old(self).member_count,
                self.members@ == old(self).members@,
                self.transaction_index == old(self).transaction_index,
                self@.proposals.subrange(0, i as int) == active_only(ps.subrange(0, j)),
                forall|k: int| 0 <= k < self.proposals.len() - i ==> #[trigger] self@.proposals[i + k] == ps[j + k],
            decreases self.proposals.len() - i,
        {
            proof {
                let head = ps.subrange(0, j);
                assert(ps.subrange(0, j + 1) =~= head.push(ps[j]));
                head.lemma_filter_push(ps[j], is_active());
                assert(self@.proposals[i + 0] == ps[j + 0]);
            }
            if self.proposals[i].status == ProposalStatus::Active {
                proof {
                    assert(self@.proposals.subrange(0, i + 1) =~= self@.proposals.subrange(0, i as int).push(ps[j]));
                    assert forall|k: int| 0 <= k < self.proposals.len() - (i + 1) implies
                        #[trigger] self@.proposals[i + 1 + k] == ps[j + 1 + k] by {
                        assert(self@.proposals[i + (k + 1)] == ps[j + (k + 1)]);
                    }
                    j = j + 1;
                }
                i = i + 1;
            } else {
                let ghost before = self@.proposals;
                self.proposals.remove(i);
                proof {
                    assert(self@.proposals =~= before.remove(i as int));
                    assert(self@.proposals.subrange(0, i as int) =~= before.subrange(0, i as int));
                    assert forall|k: int| 0 <= k < self.proposals.len() - i implies
                        #[trigger] self@.proposals[i + k] == ps[j + 1 + k] by {
                        assert(before[i + (k + 1)] == ps[j + (k + 1)]);
                    }
                    j = j + 1;
                }
            }
        }
        proof {
            assert(ps.subrange(0, j) =~= ps);
            assert(self@.proposals.subrange(0, i as int) =~= self@.proposals);
        }
    }
}

/// The ASCII tag `multisig_state`, padded with zeros.
pub open spec fn multisig_state_tag() -> Seq<u8> {
    seq![
        109u8, 117, 108, 116, 105, 115, 105, 103, 95, 115, 116, 97, 116, 101, 0, 0,
        0, 0, 0, 0, 0, 0, 0, 0, 0, 0, 0, 0, 0, 0, 0, 0,
    ]
}

/// The seed from which the host derives the configuration's address.
pub fn multisig_state_pda_seed() -> (r: PdaSeed)
    ensures
        r@ == multisig_state_tag(),
{
    let r: [u8; 32] = [
        109u8, 117, 108, 116, 105, 115, 105, 103, 95, 115, 116, 97, 116, 101, 0, 0,
        0, 0, 0, 0, 0, 0, 0, 0, 0, 0, 0, 0, 0, 0, 0, 0,
    ];
    assert(r@ =~= multisig_state_tag());
    r
}

} // verus!
