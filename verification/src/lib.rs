//! Escrow and reward settlement for a job marketplace, with a juror ballot.
//!
//! Job owners lock tokens against a job, agents lock collateral against the
//! same job, and what is locked is later paid out to the agents under one of
//! two policies: an equal split of the owner's escrow, or each agent's cost
//! per unit of time. A ballot counts one vote of acceptance or rejection for
//! each juror until it is reset.
//!
//! Every operation is one atomic step on an [`state::EscrowStore`]: it either
//! changes the store and answers with the requests that the token ledger is
//! to carry out, or it fails and has changed nothing. The operations are
//! verified against [`state::Ledger`], the store as mathematics.
//!
//! - [`table`]: the keyed collection that the store is made of.
//! - [`state`]: the store, the ledger, and what a state transition is.
//! - [`host`]: what the host hands to a call and takes back from it.
//! - [`msg`]: the requests and the answers to queries.
//! - [`payload`]: the requests to the token ledger as bytes.
//! - [`contract`]: the entry points, the operations and the queries.
//! - [`error`]: why a call fails.
//! - [`laws`]: what holds of the operations in every state.

pub mod contract;
pub mod error;
pub mod host;
pub mod laws;
pub mod msg;
pub mod payload;
pub mod state;
pub mod table;
