//! Core pattern shared by every stateful actor of a distributed chat platform:
//! an append-only event log, an aggregate participant registry, and a
//! prepare / perform / commit discipline that keeps commits idempotent and
//! re-validated when other messages interleave with an asynchronous peer call.

pub mod types;
pub mod event_log;
pub mod participants;
pub mod group;
pub mod block_user;
pub mod events_query;
pub mod remove_reaction;
pub mod retry_failed_messages;
pub mod jobs;
pub mod low_balance;
pub mod user_index;
pub mod user;
pub mod group_send_message;
pub mod recommended_groups;
pub mod memory;
pub mod lifecycle;
