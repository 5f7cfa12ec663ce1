//! A single-question poll: an owner sets a question and its options, registers
//! voters, collects one replaceable vote per voter, and closes the poll to fix
//! the plurality winner (lowest index on ties).

pub mod contract;
pub mod error;
pub mod laws;
pub mod msg;
pub mod order;
pub mod state;
