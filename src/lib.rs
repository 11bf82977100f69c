//! An M-of-N threshold governance engine: a group of members authorizes an
//! action only once a quorum of them has approved it.
//!
//! The configuration and its proposals are plain values; each instruction
//! is a handler that either refuses with a specific error and leaves the
//! configuration untouched, or applies its whole effect. Executing a
//! proposal that targets another program only authorizes the call: the
//! host is handed a descriptor and performs it.
pub mod handlers;
pub mod ids;
pub mod laws;
pub mod proposal;
pub mod registry;
pub mod state;
pub mod treasury;

pub use handlers::{approve, execute, process, propose, reject, DelegatedCall, Effect, Instruction, Outcome};
pub use ids::{AccountId, AccountRef, MemberId, PdaSeed, ProgramId};
pub use proposal::{status_str, Proposal, ProposalAction, ProposalStatus};
pub use state::{multisig_state_pda_seed, MultisigError, MultisigState};
pub use treasury::{transfer, treasury_state_pda_seed, vault_pda_seed, TreasuryError, TreasuryState, Vault};
