use multisig_core::{status_str, Proposal, ProposalAction, ProposalStatus};

fn id(n: u8) -> [u8; 32] {
    [n; 32]
}

fn fresh(proposer: u8) -> Proposal {
    Proposal::new(1, ProposalAction::ChangeThreshold { new_threshold: 1 }, id(proposer))
}

#[test]
fn new_proposal_is_active_and_self_approved() {
    let p = fresh(4);
    assert_eq!(p.index, 1);
    assert_eq!(p.approved, vec![id(4)]);
    assert!(p.rejected.is_empty());
    assert_eq!(p.status, ProposalStatus::Active);
    assert_eq!(p.action, ProposalAction::ChangeThreshold { new_threshold: 1 });
}

#[test]
fn approve_is_idempotent() {
    let mut p = fresh(1);
    assert!(p.approve(id(2)));
    assert_eq!(p.approved.len(), 2);
    assert!(!p.approve(id(2)));
    assert_eq!(p.approved.len(), 2);
}

#[test]
fn reject_is_idempotent() {
    let mut p = fresh(1);
    assert!(p.reject(id(2)));
    assert!(!p.reject(id(2)));
    assert_eq!(p.rejected, vec![id(2)]);
}

#[test]
fn reject_after_approve_moves_the_vote() {
    let mut p = fresh(1);
    p.approve(id(2));
    assert!(p.reject(id(2)));
    assert_eq!(p.approved, vec![id(1)]);
    assert_eq!(p.rejected, vec![id(2)]);
    assert!(p.approve(id(2)));
    assert_eq!(p.approved, vec![id(1), id(2)]);
    assert!(p.rejected.is_empty());
}

#[test]
fn proposer_can_reject_own_proposal() {
    let mut p = fresh(1);
    assert!(p.reject(id(1)));
    assert!(p.approved.is_empty());
    assert_eq!(p.rejected, vec![id(1)]);
}

#[test]
fn has_threshold_counts_approvals() {
    let mut p = fresh(1);
    assert!(p.has_threshold(1));
    assert!(!p.has_threshold(2));
    p.approve(id(2));
    assert!(p.has_threshold(2));
    assert!(!p.has_threshold(3));
}

#[test]
fn is_dead_boundary_two_of_three() {
    let mut p = fresh(1);
    p.reject(id(2));
    assert!(!p.is_dead(2, 3));
    p.reject(id(3));
    assert!(p.is_dead(2, 3));
}

#[test]
fn is_dead_counts_non_voters_as_remaining() {
    let mut p = fresh(1);
    assert!(!p.is_dead(3, 3));
    p.reject(id(2));
    assert!(p.is_dead(3, 3));
}

#[test]
fn is_dead_with_more_rejections_than_members() {
    let mut p = fresh(1);
    p.reject(id(2));
    p.reject(id(3));
    p.reject(id(4));
    assert!(p.is_dead(1, 2));
}

#[test]
fn status_names() {
    assert_eq!(status_str(&ProposalStatus::Active), "Active");
    assert_eq!(status_str(&ProposalStatus::Executed), "Executed");
    assert_eq!(status_str(&ProposalStatus::Rejected), "Rejected");
    assert_eq!(status_str(&ProposalStatus::Cancelled), "Cancelled");
}
