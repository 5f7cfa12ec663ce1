use vstd::prelude::*;

verus! {

/// Why an operation on a poll was rejected. A rejected operation changes nothing.
#[derive(Debug, Clone, Copy, PartialEq, Eq, Structural)]
pub enum ContractError {
    /// A caller other than the owner tried to register a voter or close the poll.
    Unauthorized {},
    /// A poll was created with more than the allowed number of options.
    TooManyOptions {},
    /// A caller without a ballot tried to vote.
    NotRegistered {},
    /// The identity to register already holds a ballot.
    AlreadyRegistered {},
    /// The poll already has a winner.
    PollClosed {},
    /// The ballots could not be read.
    DataError {},
}

} // verus!
