//! A confirmation-gated relay of deposit events between two chains.
//!
//! A deposit made on one chain is observed in that chain's logs, held back
//! until its block is deep enough to be treated as irreversible, decoded into
//! a typed record, and mirrored as a call on the other chain -- at most once
//! per deposit, and without losing one across restarts or re-scans.
//!
//! The pipeline is built from five stages: the contract binding ([`kovan`]),
//! the log source ([`source`]), the confirmation gate ([`gate`]), the deposit
//! decoder (part of [`kovan`]), and the relay submitter ([`submitter`]).
//! [`stage`] holds the suspension discipline the stages share, and [`config`]
//! the per-chain settings. All chain I/O stays outside: each stage is a state
//! machine over plain values, handed the node's answers as arguments.

pub mod config;
pub mod gate;
pub mod kovan;
pub mod pipeline;
pub mod source;
pub mod stage;
pub mod submitter;
pub mod types;
