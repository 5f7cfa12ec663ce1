use vstd::prelude::*;

use crate::contract::{
    close_outcome, closed_by, lists_votes, register_outcome, reports_winner, vote_outcome,
};
use crate::error::ContractError;
use crate::msg::{VotesResponse, WinnerResponse};
use crate::state::{lemma_ballot_at, Poll};

verus! {

/// A freshly created poll lists exactly one ballot: the owner's, with no choice.
pub proof fn lemma_created_poll_lists_owner(p: Poll, owner: Seq<char>, v: VotesResponse)
    requires
        p.wf(),
        p.votes.ballots() == map![owner => None::<u8>],
        p.votes@.len() == 1,
        lists_votes(v, p),
    ensures
        v.votes@.len() == 1,
        v.votes@[0].0@ == owner,
        v.votes@[0].1 is None,
{
    lemma_ballot_at(p.votes@, 0);
    assert(v.votes@[0].0@ == p.votes@[0].0);
}

/// Registering the same identity a second time is rejected as a duplicate.
pub proof fn lemma_register_twice(p0: Poll, p1: Poll, caller: Seq<char>, address: Seq<char>)
    requires
        register_outcome(p0, caller, address) is Ok,
        p1.config == p0.config,
        p1.votes.ballots() == p0.votes.ballots().insert(address, None),
    ensures
        register_outcome(p1, caller, address) == Err::<(), ContractError>(
            ContractError::AlreadyRegistered {  },
        ),
{
}

/// While the poll is open, anyone but the owner is refused registering and closing.
pub proof fn lemma_only_owner(p: Poll, caller: Seq<char>, address: Seq<char>)
    requires
        p.config.winner is None,
        caller != p.config.owner@,
    ensures
        register_outcome(p, caller, address) == Err::<(), ContractError>(
            ContractError::Unauthorized {  },
        ),
        close_outcome(p, caller) == Err::<(), ContractError>(ContractError::Unauthorized {  }),
{
}

/// Of two successful votes by one voter, only the later choice stays.
pub proof fn lemma_vote_overwrites(p0: Poll, p1: Poll, p2: Poll, caller: Seq<char>, i: u8, j: u8)
    requires
        vote_outcome(p0, caller) is Ok,
        p1.config == p0.config,
        p1.votes.ballots() == p0.votes.ballots().insert(caller, Some(i)),
        vote_outcome(p1, caller) is Ok,
        p2.config == p1.config,
        p2.votes.ballots() == p1.votes.ballots().insert(caller, Some(j)),
    ensures
        p2.votes.ballots() == p0.votes.ballots().insert(caller, Some(j)),
        p2.votes.ballots()[caller] == Some(j),
{
    assert(p2.votes.ballots() =~= p0.votes.ballots().insert(caller, Some(j)));
}

/// Once closed, a poll refuses every further close, registration and vote,
/// and reports the winner that was fixed.
pub proof fn lemma_closed_poll_is_final(
    p0: Poll,
    p1: Poll,
    caller: Seq<char>,
    address: Seq<char>,
    w: WinnerResponse,
)
    requires
        closed_by(p0, p1),
        reports_winner(w, p1),
    ensures
        close_outcome(p1, caller) == Err::<(), ContractError>(ContractError::PollClosed {  }),
        register_outcome(p1, caller, address) == Err::<(), ContractError>(
            ContractError::PollClosed {  },
        ),
        vote_outcome(p1, caller) == Err::<(), ContractError>(ContractError::PollClosed {  }),
        w.index == p1.config.winner,
        w.winner matches Some(label) && label@ == p1.config.options@[p1.config.winner->0 as int]@,
{
}

} // verus!
