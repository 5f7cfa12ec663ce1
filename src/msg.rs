use vstd::prelude::*;

verus! {

/// What a poll is created with.
#[derive(Clone, Debug, PartialEq)]
pub struct InstantiateMsg {
    /// The question being polled.
    pub question: String,
    /// The option labels, addressed by index.
    pub options: Vec<String>,
}

/// The operations that change a poll.
#[derive(Clone, Debug, PartialEq)]
pub enum ExecuteMsg {
    /// Register a new voter; only the owner may.
    Register { address: String },
    /// Cast or replace the caller's vote.
    Vote { index: u8 },
    /// Close the poll and fix its winner; only the owner may.
    End {},
}

/// The read-only questions one can ask of a poll.
#[derive(Clone, Debug, PartialEq)]
pub enum QueryMsg {
    GetQuestion {},
    GetVotes {},
    GetOptions {},
    GetWinner {},
}

/// One voter and the option they chose, if any.
#[derive(Clone, Debug, PartialEq)]
pub struct PollVote {
    pub address: String,
    pub vote: Option<u8>,
}

/// One option and its index.
#[derive(Clone, Debug, PartialEq)]
pub struct PollOption {
    pub text: String,
    pub index: u8,
}

/// Every registered voter with their choice, ascending by identity bytes.
#[derive(Clone, Debug, PartialEq)]
pub struct VotesResponse {
    pub votes: Vec<(String, Option<u8>)>,
}

#[derive(Clone, Debug, PartialEq)]
pub struct QuestionResponse {
    pub question: String,
}

/// The options as (index, label) pairs, in index order.
#[derive(Clone, Debug, PartialEq)]
pub struct OptionsResponse {
    pub options: Vec<(u8, String)>,
}

/// The winning index and label; both absent while the poll is open.
#[derive(Clone, Debug, PartialEq)]
pub struct WinnerResponse {
    pub index: Option<u8>,
    pub winner: Option<String>,
}

#[derive(Clone, Debug, PartialEq)]
pub struct EmptyResponse {}

/// The answer to a `QueryMsg`, one variant per query.
#[derive(Clone, Debug, PartialEq)]
pub enum QueryResponse {
    Question(QuestionResponse),
    Votes(VotesResponse),
    Options(OptionsResponse),
    Winner(WinnerResponse),
}

} // verus!
