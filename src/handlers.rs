//! One handler per instruction. Each validates before it changes anything,
//! so a refused instruction leaves the configuration as it was.
use vstd::prelude::*;

use crate::ids::{lemma_without, without, without_id, AccountId, AccountRef, MemberId, ProgramId};
use crate::proposal::{
    approved_by, dead, fresh_proposal, lemma_push_no_duplicates, lemma_votes_wf_kept,
    meets_threshold, rejected_by, votes_wf, ProposalAction, ProposalStatus, ProposalView,
};
use crate::state::{
    active_only, indices_ordered, initial_view, lemma_active_only_wf, position, valid_config,
    MultisigError, MultisigState, MultisigView,
};

verus! {

/// A call that the host is to make on the group's behalf once a proposal
/// carrying it has been executed.
#[derive(Clone, Debug)]
pub struct DelegatedCall {
    pub program_id: ProgramId,
    pub instruction_data: Vec<u8>,
    /// The target accounts, in the order supplied, with the ones the
    /// proposal named marked as authorized by the group.
    pub accounts: Vec<AccountRef>,
    /// The positions in `accounts` that the group authorizes.
    pub authorized_indices: Vec<u8>,
    pub pda_seeds: Vec<[u8; 32]>,
}

/// What an executed proposal leaves for the host to do.
#[derive(Clone, Debug)]
pub enum Effect {
    /// The configuration itself was changed; nothing is left to do.
    Applied,
    /// Funds are to be moved to `recipient`.
    Transfer { recipient: AccountId, amount: u128 },
    /// Another program is to be called.
    Call(DelegatedCall),
}

/// The target accounts of a call, with those at `indices` authorized.
pub open spec fn authorize(targets: Seq<AccountRef>, indices: Seq<u8>) -> Seq<AccountRef> {
    Seq::new(
        targets.len(),
        |k: int|
            AccountRef {
                id: targets[k].id,
                is_authorized: targets[k].is_authorized || indices.contains(k as u8),
            },
    )
}

/// How many target accounts executing `a` needs.
pub open spec fn declared_accounts(a: ProposalAction) -> nat {
    match a {
        ProposalAction::Call { target_account_count, .. } => target_account_count as nat,
        _ => 0,
    }
}

/// Whether carrying out `a` on `s` keeps the roster and threshold valid.
pub open spec fn applicable(s: MultisigView, a: ProposalAction) -> bool {
    match a {
        ProposalAction::AddMember { new_member } => !s.members.contains(new_member) && s.members.len()
            < u8::MAX,
        ProposalAction::RemoveMember { member_to_remove } => s.threshold <= without(
            s.members,
            member_to_remove,
        ).len(),
        ProposalAction::ChangeThreshold { new_threshold } => 1 <= new_threshold <= s.member_count,
        _ => true,
    }
}

/// The configuration after `a` changed its roster or threshold; other
/// actions leave it alone.
pub open spec fn apply_action(s: MultisigView, a: ProposalAction) -> MultisigView {
    match a {
        ProposalAction::AddMember { new_member } => MultisigView {
            members: s.members.push(new_member),
            member_count: (s.members.len() + 1) as u8,
            ..s
        },
        ProposalAction::RemoveMember { member_to_remove } => MultisigView {
            members: without(s.members, member_to_remove),
            member_count: without(s.members, member_to_remove).len() as u8,
            ..s
        },
        ProposalAction::ChangeThreshold { new_threshold } => MultisigView {
            threshold: new_threshold,
            ..s
        },
        _ => s,
    }
}

/// `e` is what executing `a` with `targets` hands to the host.
pub open spec fn effect_of(e: Effect, a: ProposalAction, targets: Seq<AccountRef>) -> bool {
    match a {
        ProposalAction::Transfer { recipient, amount } => e == (Effect::Transfer { recipient, amount }),
        ProposalAction::Call {
            target_program_id,
            instruction_data,
            target_account_count,
            pda_seeds,
            authorized_indices,
        } => e matches Effect::Call(c) && c.program_id == target_program_id
            && c.instruction_data@ == instruction_data@ && c.accounts@ == authorize(
            targets,
            authorized_indices@,
        ) && c.authorized_indices@ == authorized_indices@ && c.pda_seeds@ == pda_seeds@,
        _ => e is Applied,
    }
}

/// The outcome of `Propose` by `signer` on `s`: resolved proposals are
/// pruned and a new one, approved by the signer, takes the next index.
pub open spec fn propose_step(s: MultisigView, signer: MemberId, action: ProposalAction) -> (
    MultisigView,
    Result<u64, MultisigError>,
) {
    if !s.members.contains(signer) {
        (s, Err(MultisigError::NotAMember))
    } else if s.transaction_index == u64::MAX {
        (s, Err(MultisigError::IndexExhausted))
    } else {
        let index = (s.transaction_index + 1) as u64;
        (
            MultisigView {
                transaction_index: index,
                proposals: active_only(s.proposals).push(fresh_proposal(index, action, signer)),
                ..s
            },
            Ok(index),
        )
    }
}

/// The position of the proposal a vote by `signer` goes to, or why the
/// vote is refused.
pub open spec fn vote_target(s: MultisigView, signer: MemberId, index: u64) -> Result<
    int,
    MultisigError,
> {
    if !s.members.contains(signer) {
        Err(MultisigError::NotAMember)
    } else {
        match position(s.proposals, index) {
            None => Err(MultisigError::ProposalNotFound),
            Some(i) => if s.proposals[i].status != ProposalStatus::Active {
                Err(MultisigError::ProposalNotActive)
            } else {
                Ok(i)
            },
        }
    }
}

/// The outcome of `Approve`: true when the approval is new.
pub open spec fn approve_step(s: MultisigView, signer: MemberId, index: u64) -> (
    MultisigView,
    Result<bool, MultisigError>,
) {
    match vote_target(s, signer, index) {
        Err(e) => (s, Err(e)),
        Ok(i) => (
            MultisigView {
                proposals: s.proposals.update(i, approved_by(s.proposals[i], signer)),
                ..s
            },
            Ok(!s.proposals[i].approved.contains(signer)),
        ),
    }
}

/// A proposal after a new rejection: it becomes `Rejected` as soon as it
/// can no longer reach the threshold.
pub open spec fn settle_rejection(p: ProposalView, threshold: u8, member_count: u8) -> ProposalView {
    if dead(p, threshold, member_count) {
        ProposalView { status: ProposalStatus::Rejected, ..p }
    } else {
        p
    }
}

/// The outcome of `Reject`: true when the rejection is new.
pub open spec fn reject_step(s: MultisigView, signer: MemberId, index: u64) -> (
    MultisigView,
    Result<bool, MultisigError>,
) {
    match vote_target(s, signer, index) {
        Err(e) => (s, Err(e)),
        Ok(i) => {
            let p = s.proposals[i];
            if p.rejected.contains(signer) {
                (s, Ok(false))
            } else {
                let q = settle_rejection(rejected_by(p, signer), s.threshold, s.member_count);
                (MultisigView { proposals: s.proposals.update(i, q), ..s }, Ok(true))
            }
        },
    }
}

/// The position of the proposal `Execute` carries out, or why it refuses.
pub open spec fn execute_target(
    s: MultisigView,
    executor: AccountRef,
    index: u64,
    n_targets: nat,
) -> Result<int, MultisigError> {
    if !executor.is_authorized {
        Err(MultisigError::NotSigner)
    } else if !s.members.contains(executor.id) {
        Err(MultisigError::NotAMember)
    } else {
        match position(s.proposals, index) {
            None => Err(MultisigError::ProposalNotFound),
            Some(i) => {
                let p = s.proposals[i];
                if p.status != ProposalStatus::Active {
                    Err(MultisigError::ProposalNotActive)
                } else if !meets_threshold(p, s.threshold) {
                    Err(MultisigError::ThresholdNotMet)
                } else if n_targets != declared_accounts(p.action) {
                    Err(MultisigError::AccountCountMismatch)
                } else if !applicable(s, p.action) {
                    Err(MultisigError::InvalidThreshold)
                } else {
                    Ok(i)
                }
            },
        }
    }
}

/// `Execute` turned `s` into `t` with result `r`: on success the action is
/// applied, the proposal is marked executed and every resolved proposal is
/// pruned; on refusal nothing changes.
pub open spec fn execute_outcome(
    s: MultisigView,
    executor: AccountRef,
    index: u64,
    targets: Seq<AccountRef>,
    t: MultisigView,
    r: Result<Effect, MultisigError>,
) -> bool {
    match execute_target(s, executor, index, targets.len()) {
        Err(e) => t == s && r == Err::<Effect, MultisigError>(e),
        Ok(i) => {
            let a = s.proposals[i].action;
            &&& t == (MultisigView {
                proposals: active_only(
                    s.proposals.update(i, ProposalView { status: ProposalStatus::Executed, ..s.proposals[i] }),
                ),
                ..apply_action(s, a)
            })
            &&& r matches Ok(e) && effect_of(e, a, targets)
        },
    }
}

/// Records `Propose` by `signer`.
pub fn propose(state: &mut MultisigState, signer: MemberId, action: ProposalAction) -> (r: Result<u64, MultisigError>)
    ensures
        (final(state)@, r) == propose_step(old(state)@, signer, action),
        old(state)@.wf() ==> final(state)@.wf(),
{
    if !state.is_member(&signer) {
        return Err(MultisigError::NotAMember);
    }
    if state.transaction_index == u64::MAX {
        return Err(MultisigError::IndexExhausted);
    }
    state.cleanup_proposals();
    let ghost pruned = state@;
    let index = state.create_proposal(action, signer);
    proof {
        if old(state)@.wf() {
            let ps = old(state)@.proposals;
            lemma_active_only_wf(ps, old(state)@.transaction_index);
            let w = active_only(ps);
            let n = fresh_proposal(index, action, signer);
            assert(votes_wf(n)) by {
                assert(n.approved.no_duplicates());
                assert(n.rejected.len() == 0);
            }
            assert(indices_ordered(w.push(n), index));
            assert(forall|i: int| 0 <= i < w.push(n).len() ==> votes_wf(#[trigger] w.push(n)[i]));
        }
    }
    Ok(index)
}

/// Records `Approve` by `signer` of the proposal `index`.
pub fn approve(state: &mut MultisigState, signer: MemberId, index: u64) -> (r: Result<bool, MultisigError>)
    ensures
        (final(state)@, r) == approve_step(old(state)@, signer, index),
        old(state)@.wf() ==> final(state)@.wf(),
{
    if !state.is_member(&signer) {
        return Err(MultisigError::NotAMember);
    }
    let i = match state.find_position(index) {
        Some(i) => i,
        None => return Err(MultisigError::ProposalNotFound),
    };
    if state.proposals[i].status != ProposalStatus::Active {
        return Err(MultisigError::ProposalNotActive);
    }
    let ghost before = state@;
    let fresh = state.proposals[i].approve(signer);
    proof {
        assert(state@.proposals =~= before.proposals.update(i as int, approved_by(before.proposals[i as int], signer)));
        if before.wf() {
            lemma_votes_wf_kept(before.proposals[i as int], signer);
            assert(forall|k: int| 0 <= k < state@.proposals.len() ==> votes_wf(#[trigger] state@.proposals[k]));
        }
    }
    Ok(fresh)
}

/// Records `Reject` by `signer` of the proposal `index`; a new rejection
/// that leaves the threshold out of reach marks the proposal `Rejected`.
pub fn reject(state: &mut MultisigState, signer: MemberId, index: u64) -> (r: Result<bool, MultisigError>)
    ensures
        (final(state)@, r) == reject_step(old(state)@, signer, index),
        old(state)@.wf() ==> final(state)@.wf(),
{
    if !state.is_member(&signer) {
        return Err(MultisigError::NotAMember);
    }
    let i = match state.find_position(index) {
        Some(i) => i,
        None => return Err(MultisigError::ProposalNotFound),
    };
    if state.proposals[i].status != ProposalStatus::Active {
        return Err(MultisigError::ProposalNotActive);
    }
    let ghost before = state@;
    let threshold = state.threshold;
    let member_count = state.member_count;
    let fresh = state.proposals[i].reject(signer);
    if fresh && state.proposals[i].is_dead(threshold, member_count) {
        state.proposals[i].status = ProposalStatus::Rejected;
    }
    proof {
        let p = before.proposals[i as int];
        if fresh {
            assert(state@.proposals =~= before.proposals.update(
                i as int,
                settle_rejection(rejected_by(p, signer), threshold, member_count),
            ));
        } else {
            assert(state@.proposals =~= before.proposals);
        }
        if before.wf() {
            lemma_votes_wf_kept(p, signer);
            assert(forall|k: int| 0 <= k < state@.proposals.len() ==> votes_wf(#[trigger] state@.proposals[k]));
        }
    }
    Ok(fresh)
}

/// Pruning does not see what a resolved proposal held.
pub proof fn lemma_prune_ignores_resolved(ps: Seq<ProposalView>, i: int, q1: ProposalView, q2: ProposalView)
    requires
        0 <= i < ps.len(),
        q1.status != ProposalStatus::Active,
        q2.status != ProposalStatus::Active,
    ensures
        active_only(ps.update(i, q1)) == active_only(ps.update(i, q2)),
    decreases ps.len(),
{
    reveal(Seq::filter);
    let a = ps.update(i, q1);
    let b = ps.update(i, q2);
    if i == ps.len() - 1 {
        assert(a.drop_last() =~= b.drop_last());
    } else {
        let init = ps.drop_last();
        lemma_prune_ignores_resolved(init, i, q1, q2);
        assert(a.drop_last() =~= init.update(i, q1));
        assert(b.drop_last() =~= init.update(i, q2));
        assert(a.last() == b.last());
    }
}

/// How many target accounts executing `a` needs.
fn account_count(a: &ProposalAction) -> (r: usize)
    ensures
        r == declared_accounts(*a),
{
    match a {
        ProposalAction::Call { target_account_count, .. } => *target_account_count as usize,
        _ => 0,
    }
}

/// Whether carrying out `a` keeps the configuration valid.
fn is_applicable(state: &MultisigState, a: &ProposalAction) -> (r: bool)
    ensures
        r == applicable(state@, *a),
{
    match a {
        ProposalAction::AddMember { new_member } => !state.is_member(new_member) && state.members.len() < 255,
        ProposalAction::RemoveMember { member_to_remove } => {
            let rest = without_id(&state.members, member_to_remove);
            (state.threshold as usize) <= rest.len()
        },
        ProposalAction::ChangeThreshold { new_threshold } => 1 <= *new_threshold && *new_threshold
            <= state.member_count,
        _ => true,
    }
}

/// Whether `k` occurs in `v`.
fn contains_index(v: &Vec<u8>, k: u8) -> (r: bool)
    ensures
        r == v@.contains(k),
{
    let mut i: usize = 0;
    while i < v.len()
        invariant
            0 <= i <= v.len(),
            forall|j: int| 0 <= j < i ==> v@[j] != k,
        decreases v.len() - i,
    {
        if v[i] == k {
            return true;
        }
        i = i + 1;
    }
    false
}

/// The target accounts with those at `indices` marked as authorized.
fn authorize_targets(targets: &Vec<AccountRef>, indices: &Vec<u8>) -> (r: Vec<AccountRef>)
    ensures
        r@ == authorize(targets@, indices@),
{
    let mut out: Vec<AccountRef> = Vec::new();
    let mut i: usize = 0;
    while i < targets.len()
        invariant
            0 <= i <= targets.len(),
            out@.len() == i,
            forall|k: int| 0 <= k < i ==> #[trigger] out@[k] == authorize(targets@, indices@)[k],
        decreases targets.len() - i,
    {
        let t = targets[i];
        let marked = contains_index(indices, i as u8);
        out.push(AccountRef { id: t.id, is_authorized: t.is_authorized || marked });
        i = i + 1;
    }
    assert(out@ =~= authorize(targets@, indices@));
    out
}

/// Carries out the proposal `index` for `executor`, with the target
/// accounts of a delegated call in `targets`.
pub fn execute(
    state: &mut MultisigState,
    executor: AccountRef,
    index: u64,
    targets: Vec<AccountRef>,
) -> (r: Result<Effect, MultisigError>)
    ensures
        execute_outcome(old(state)@, executor, index, targets@, final(state)@, r),
        old(state)@.wf() ==> final(state)@.wf(),
{
    if !executor.is_authorized {
        return Err(MultisigError::NotSigner);
    }
    if !state.is_member(&executor.id) {
        return Err(MultisigError::NotAMember);
    }
    let i = match state.find_position(index) {
        Some(i) => i,
        None => return Err(MultisigError::ProposalNotFound),
    };
    if state.proposals[i].status != ProposalStatus::Active {
        return Err(MultisigError::ProposalNotActive);
    }
    if !state.proposals[i].has_threshold(state.threshold) {
        return Err(MultisigError::ThresholdNotMet);
    }
    if targets.len() != account_count(&state.proposals[i].action) {
        return Err(MultisigError::AccountCountMismatch);
    }
    if !is_applicable(state, &state.proposals[i].action) {
        return Err(MultisigError::InvalidThreshold);
    }
    let ghost before = state@;
    let ghost target = before.proposals[i as int];
    let mut action = ProposalAction::ChangeThreshold { new_threshold: 0 };
    std::mem::swap(&mut action, &mut state.proposals[i].action);
    state.proposals[i].status = ProposalStatus::Executed;
    proof {
        let q = ProposalView { status: ProposalStatus::Executed, ..target };
        assert(state@.proposals =~= before.proposals.update(i as int, state@.proposals[i as int]));
        lemma_prune_ignores_resolved(before.proposals, i as int, state@.proposals[i as int], q);
    }
    state.cleanup_proposals();
    proof {
        if before.wf() {
            let q = ProposalView { status: ProposalStatus::Executed, ..target };
            let u = before.proposals.update(i as int, q);
            assert(indices_ordered(u, before.transaction_index));
            assert(forall|k: int| 0 <= k < u.len() ==> votes_wf(#[trigger] u[k]));
            lemma_active_only_wf(u, before.transaction_index);
        }
    }
    match action {
        ProposalAction::AddMember { new_member } => {
            proof {
                if before.wf() {
                    lemma_push_no_duplicates(before.members, new_member);
                }
            }
            state.members.push(new_member);
            state.member_count = state.members.len() as u8;
            Ok(Effect::Applied)
        },
        ProposalAction::RemoveMember { member_to_remove } => {
            proof {
                lemma_without(before.members, member_to_remove);
            }
            state.members = without_id(&state.members, &member_to_remove);
            state.member_count = state.members.len() as u8;
            Ok(Effect::Applied)
        },
        ProposalAction::ChangeThreshold { new_threshold } => {
            state.threshold = new_threshold;
            Ok(Effect::Applied)
        },
        ProposalAction::Transfer { recipient, amount } => Ok(Effect::Transfer { recipient, amount }),
        ProposalAction::Call {
            target_program_id,
            instruction_data,
            target_account_count: _,
            pda_seeds,
            authorized_indices,
        } => {
            let accounts = authorize_targets(&targets, &authorized_indices);
            Ok(
                Effect::Call(
                    DelegatedCall {
                        program_id: target_program_id,
                        instruction_data,
                        accounts,
                        authorized_indices,
                        pda_seeds,
                    },
                ),
            )
        },
    }
}

/// The instructions the multisig program accepts.
#[derive(Clone, Debug)]
pub enum Instruction {
    /// Create the configuration: `threshold` of `members`.
    CreateMultisig { threshold: u8, members: Vec<MemberId> },
    /// Propose an action; the signer approves it at once.
    Propose { action: ProposalAction },
    /// Approve a live proposal.
    Approve { proposal_index: u64 },
    /// Reject a live proposal.
    Reject { proposal_index: u64 },
    /// Execute a proposal that has reached the threshold.
    Execute { proposal_index: u64 },
}

/// What a successful instruction reports.
#[derive(Clone, Debug)]
pub enum Outcome {
    Created,
    Proposed { index: u64 },
    Approved { new_approval: bool },
    Rejected { new_rejection: bool },
    Executed(Effect),
}

/// `process` of `instruction` on the slot `old` gave the slot `new` and the
/// result `r`. A missing configuration is one not created yet.
pub open spec fn process_outcome(
    old: Option<MultisigView>,
    signer: AccountRef,
    targets: Seq<AccountRef>,
    instruction: Instruction,
    new: Option<MultisigView>,
    r: Result<Outcome, MultisigError>,
) -> bool {
    match instruction {
        Instruction::CreateMultisig { threshold, members } => match old {
            Some(_) => new == old && r == Err::<Outcome, MultisigError>(MultisigError::AlreadyInitialized),
            None => if valid_config(threshold, members@) {
                new == Some(initial_view(threshold, members@)) && r is Ok && r->Ok_0 is Created
            } else {
                new == old && r == Err::<Outcome, MultisigError>(MultisigError::InvalidThreshold)
            },
        },
        _ => match old {
            None => new == old && r == Err::<Outcome, MultisigError>(MultisigError::NotInitialized),
            Some(s) => new is Some && match instruction {
                Instruction::Propose { action } => {
                    let (t, res) = propose_step(s, signer.id, action);
                    &&& new == Some(t)
                    &&& match res {
                        Ok(index) => r is Ok && r->Ok_0 == (Outcome::Proposed { index }),
                        Err(e) => r == Err::<Outcome, MultisigError>(e),
                    }
                },
                Instruction::Approve { proposal_index } => {
                    let (t, res) = approve_step(s, signer.id, proposal_index);
                    &&& new == Some(t)
                    &&& match res {
                        Ok(b) => r is Ok && r->Ok_0 == (Outcome::Approved { new_approval: b }),
                        Err(e) => r == Err::<Outcome, MultisigError>(e),
                    }
                },
                Instruction::Reject { proposal_index } => {
                    let (t, res) = reject_step(s, signer.id, proposal_index);
                    &&& new == Some(t)
                    &&& match res {
                        Ok(b) => r is Ok && r->Ok_0 == (Outcome::Rejected { new_rejection: b }),
                        Err(e) => r == Err::<Outcome, MultisigError>(e),
                    }
                },
                Instruction::Execute { proposal_index } => exists|t: MultisigView, res: Result<Effect, MultisigError>|
                    {
                        &&& new == Some(t)
                        &&& execute_outcome(s, signer, proposal_index, targets, t, res)
                        &&& match res {
                            Ok(e) => r is Ok && r->Ok_0 == Outcome::Executed(e),
                            Err(e) => r == Err::<Outcome, MultisigError>(e),
                        }
                    },
                _ => false,
            },
        },
    }
}

/// The view of a configuration slot.
pub open spec fn slot_view(slot: Option<MultisigState>) -> Option<MultisigView> {
    match slot {
        Some(s) => Some(s@),
        None => None,
    }
}

/// Runs one instruction signed by `signer` against the configuration in
/// `slot`; `targets` are the accounts that follow the fixed ones.
pub fn process(
    slot: &mut Option<MultisigState>,
    signer: AccountRef,
    targets: Vec<AccountRef>,
    instruction: Instruction,
) -> (r: Result<Outcome, MultisigError>)
    ensures
        process_outcome(slot_view(*old(slot)), signer, targets@, instruction, slot_view(*final(slot)), r),
        (*old(slot) matches Some(s) ==> s@.wf()) ==> (*final(slot) matches Some(s) ==> s@.wf()),
{
    match instruction {
        Instruction::CreateMultisig { threshold, members } => {
            if slot.is_some() {
                return Err(MultisigError::AlreadyInitialized);
            }
            let created = MultisigState::create(threshold, members);
            match created {
                Ok(s) => {
                    *slot = Some(s);
                    Ok(Outcome::Created)
                },
                Err(e) => Err(e),
            }
        },
        Instruction::Propose { action } => match slot.as_mut() {
            None => Err(MultisigError::NotInitialized),
            Some(s) => match propose(s, signer.id, action) {
                Ok(index) => Ok(Outcome::Proposed { index }),
                Err(e) => Err(e),
            },
        },
        Instruction::Approve { proposal_index } => match slot.as_mut() {
            None => Err(MultisigError::NotInitialized),
            Some(s) => match approve(s, signer.id, proposal_index) {
                Ok(b) => Ok(Outcome::Approved { new_approval: b }),
                Err(e) => Err(e),
            },
        },
        Instruction::Reject { proposal_index } => match slot.as_mut() {
            None => Err(MultisigError::NotInitialized),
            Some(s) => match reject(s, signer.id, proposal_index) {
                Ok(b) => Ok(Outcome::Rejected { new_rejection: b }),
                Err(e) => Err(e),
            },
        },
        Instruction::Execute { proposal_index } => match slot.as_mut() {
            None => Err(MultisigError::NotInitialized),
            Some(s) => {
                let ghost before = s@;
                let res = execute(s, signer, proposal_index, targets);
                let ghost after = s@;
                let out = match res {
                    Ok(e) => Ok(Outcome::Executed(e)),
                    Err(e) => Err(e),
                };
                proof {
                    assert(execute_outcome(before, signer, proposal_index, targets@, after, res));
                }
                out
            },
        },
    }
}

} // verus!
