//! The rules behind the public API of a node.
//!
//! A node's public API sits between its clients and the services that run
//! inside the node: consensus, execution, pool, network, block storage. Each
//! endpoint asks some of those services, decides from what they say, and
//! compiles an answer. This crate holds the decisions and the compilation, on
//! plain values; whoever embeds it talks to the services and the clients.
//!
//! An endpoint that asks several questions in turn is a chain of states. Each
//! state shows what the next question is about and has one method that takes
//! the reply, so the questions come in the right order and only when they are
//! due.

pub mod addresses;
pub mod api;
pub mod blocks;
pub mod datastore;
pub mod error;
pub mod execution;
pub mod id_set;
pub mod models;
pub mod records;
pub mod sequences;
pub mod stakers;
pub mod status;
pub mod submission;
pub mod timeslots;
