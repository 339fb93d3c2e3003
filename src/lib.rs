//! A chained BFT consensus replica: committee arithmetic, certificates, vote
//! accumulation, the consensus state with its chain commit rule and garbage
//! collection, and the per-node event handler; beside it, the bookkeeping of
//! the run coordinator and the routing decisions of the web-server network.

pub mod accumulator;
pub mod certificate;
pub mod commitment;
pub mod committee;
pub mod consensus;
pub mod data;
pub mod orchestrator;
pub mod task;
pub mod web_network;
