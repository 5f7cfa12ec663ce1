use vstd::prelude::*;

use crate::error::ContractError;
use crate::msg::{
    ExecuteMsg, InstantiateMsg, OptionsResponse, QueryMsg, QueryResponse, QuestionResponse,
    VotesResponse, WinnerResponse,
};
use crate::state::{lemma_ballot_at, Config, Poll, Votes};

verus! {

/// The largest number of options a poll may have.
pub const MAX_OPTIONS: usize = 127;

/// How many ballots in `s` chose option `k`.
pub open spec fn tally(s: Seq<(Seq<char>, Option<u8>)>, k: int) -> nat
    decreases s.len(),
{
    if s.len() == 0 {
        0
    } else {
        tally(s.drop_last(), k) + match s.last().1 {
            Some(c) => if c as int == k {
                1nat
            } else {
                0nat
            },
            None => 0nat,
        }
    }
}

/// The count of each of the `n` options; choices outside `0..n` count for none.
pub open spec fn tallies(s: Seq<(Seq<char>, Option<u8>)>, n: int) -> Seq<nat> {
    Seq::new(n as nat, |k: int| tally(s, k))
}

/// `w` is the lowest index holding the largest count.
pub open spec fn is_winner(counts: Seq<nat>, w: int) -> bool {
    &&& 0 <= w < counts.len()
    &&& forall|k: int| 0 <= k < counts.len() ==> #[trigger] counts[k] <= counts[w]
    &&& forall|k: int| 0 <= k < w ==> #[trigger] counts[k] < counts[w]
}

/// What `register_user` answers: closed first, then the owner check, then a duplicate.
pub open spec fn register_outcome(p: Poll, caller: Seq<char>, address: Seq<char>) -> Result<
    (),
    ContractError,
> {
    if p.config.winner is Some {
        Err(ContractError::PollClosed {  })
    } else if caller != p.config.owner@ {
        Err(ContractError::Unauthorized {  })
    } else if p.votes.ballots().contains_key(address) {
        Err(ContractError::AlreadyRegistered {  })
    } else {
        Ok(())
    }
}

/// What `try_vote` answers: closed first, then whether the caller holds a ballot.
pub open spec fn vote_outcome(p: Poll, caller: Seq<char>) -> Result<(), ContractError> {
    if p.config.winner is Some {
        Err(ContractError::PollClosed {  })
    } else if !p.votes.ballots().contains_key(caller) {
        Err(ContractError::NotRegistered {  })
    } else {
        Ok(())
    }
}

/// The guard under which `try_close` writes the winner: still open, and called by the owner.
pub open spec fn close_outcome(p: Poll, caller: Seq<char>) -> Result<(), ContractError> {
    if p.config.winner is Some {
        Err(ContractError::PollClosed {  })
    } else if caller != p.config.owner@ {
        Err(ContractError::Unauthorized {  })
    } else {
        Ok(())
    }
}

/// Creates a poll owned by `sender`, who is registered with no choice.
pub fn instantiate(sender: String, msg: InstantiateMsg) -> (r: Result<Poll, ContractError>)
    ensures
        msg.options@.len() > 127 ==> r == Err::<Poll, ContractError>(
            ContractError::TooManyOptions {  },
        ),
        msg.options@.len() <= 127 ==> (r matches Ok(p) && {
            &&& p.wf()
            &&& p.config.owner@ == sender@
            &&& p.config.question == msg.question
            &&& p.config.options == msg.options
            &&& p.config.winner is None
            &&& p.votes.ballots() == map![sender@ => None::<u8>]
            &&& p.votes@.len() == 1
        }),
{
    if msg.options.len() > MAX_OPTIONS {
        return Err(ContractError::TooManyOptions {  });
    }
    let mut votes = Votes::new();
    let owner = sender.clone();
    votes.save(sender, None);
    assert(Map::<Seq<char>, Option<u8>>::empty().insert(owner@, None) =~= map![owner@ => None::<u8>]);
    let config = Config { owner, question: msg.question, options: msg.options, winner: None };
    Ok(Poll { config, votes })
}

/// Runs one operation for `sender`.
pub fn execute(poll: &mut Poll, sender: &String, msg: ExecuteMsg) -> (r: Result<(), ContractError>)
    requires
        old(poll).wf(),
        msg is End ==> old(poll).config.options@.len() >= 1,
    ensures
        final(poll).wf(),
        msg matches ExecuteMsg::Register { address } ==> {
            &&& r == register_outcome(*old(poll), sender@, address@)
            &&& r is Ok ==> final(poll).config == old(poll).config
                && final(poll).votes.ballots() == old(poll).votes.ballots().insert(address@, None)
            &&& r is Err ==> *final(poll) == *old(poll)
        },
        msg matches ExecuteMsg::Vote { index } ==> {
            &&& r == vote_outcome(*old(poll), sender@)
            &&& r is Ok ==> final(poll).config == old(poll).config
                && final(poll).votes.ballots() == old(poll).votes.ballots().insert(
                sender@,
                Some(index),
            )
            &&& r is Err ==> *final(poll) == *old(poll)
        },
        msg is End ==> {
            &&& r == close_outcome(*old(poll), sender@)
            &&& r is Ok ==> closed_by(*old(poll), *final(poll))
            &&& r is Err ==> *final(poll) == *old(poll)
        },
{
    match msg {
        ExecuteMsg::Register { address } => register_user(poll, sender, address),
        ExecuteMsg::Vote { index } => try_vote(poll, sender, index),
        ExecuteMsg::End {  } => match try_close(poll, sender) {
            Ok(_) => Ok(()),
            Err(e) => Err(e),
        },
    }
}

/// Registers `address` with no choice; only the owner may, while the poll is open.
pub fn register_user(poll: &mut Poll, sender: &String, address: String) -> (r: Result<
    (),
    ContractError,
>)
    requires
        old(poll).wf(),
    ensures
        final(poll).wf(),
        r == register_outcome(*old(poll), sender@, address@),
        r is Ok ==> final(poll).config == old(poll).config && final(poll).votes.ballots() == old(
            poll,
        ).votes.ballots().insert(address@, None),
        r is Err ==> *final(poll) == *old(poll),
{
    if poll.config.winner.is_some() {
        return Err(ContractError::PollClosed {  });
    }
    if *sender != poll.config.owner {
        return Err(ContractError::Unauthorized {  });
    }
    match poll.votes.load(&address) {
        Some(_) => Err(ContractError::AlreadyRegistered {  }),
        None => {
            poll.votes.save(address, None);
            Ok(())
        },
    }
}

/// Records `index` as the caller's choice, replacing any earlier one.
/// The index is not checked against the options: one out of range is kept
/// and counts for no option when the poll is closed.
pub fn try_vote(poll: &mut Poll, sender: &String, index: u8) -> (r: Result<(), ContractError>)
    requires
        old(poll).wf(),
    ensures
        final(poll).wf(),
        r == vote_outcome(*old(poll), sender@),
        r is Ok ==> final(poll).config == old(poll).config && final(poll).votes.ballots() == old(
            poll,
        ).votes.ballots().insert(sender@, Some(index)),
        r is Err ==> *final(poll) == *old(poll),
{
    if poll.config.winner.is_some() {
        return Err(ContractError::PollClosed {  });
    }
    match poll.votes.load(sender) {
        Some(_) => {
            poll.votes.save(sender.clone(), Some(index));
            Ok(())
        },
        None => Err(ContractError::NotRegistered {  }),
    }
}

/// `q` is `p` closed with the winner that the tally of `p`'s ballots gives.
pub open spec fn closed_by(p: Poll, q: Poll) -> bool {
    &&& q.votes == p.votes
    &&& q.config.owner == p.config.owner
    &&& q.config.question == p.config.question
    &&& q.config.options == p.config.options
    &&& (q.config.winner matches Some(w) && is_winner(
        tallies(p.votes@, p.config.options@.len() as int),
        w as int,
    ))
}

/// Counts the ballots per option, in one pass over the ballot table.
fn count_votes(votes: &Votes, n: usize) -> (counts: Vec<usize>)
    requires
        votes.wf(),
    ensures
        counts@.len() == n,
        forall|k: int| 0 <= k < n ==> #[trigger] counts@[k] == tally(votes@, k),
{
    let ghost s = votes@;
    let mut counts: Vec<usize> = Vec::new();
    let mut k: usize = 0;
    while k < n
        invariant
            k <= n,
            counts@.len() == k,
            forall|j: int| 0 <= j < k ==> #[trigger] counts@[j] == 0,
        decreases n - k,
    {
        counts.push(0);
        k = k + 1;
    }
    let all = votes.range();
    let mut i: usize = 0;
    assert(s.take(0) =~= Seq::<(Seq<char>, Option<u8>)>::empty());
    while i < all.len()
        invariant
            i <= all@.len(),
            all@.len() == s.len(),
            forall|j: int| 0 <= j < all@.len() ==> (#[trigger] all@[j]).1 == s[j].1,
            counts@.len() == n,
            forall|j: int| 0 <= j < n ==> #[trigger] counts@[j] == tally(s.take(i as int), j),
            forall|j: int| 0 <= j < n ==> #[trigger] counts@[j] <= i,
        decreases all@.len() - i,
    {
        assert(s.take(i + 1).drop_last() =~= s.take(i as int));
        assert(s.take(i + 1).last() == s[i as int]);
        if let Some(c) = all[i].1 {
            if (c as usize) < n {
                let v = counts[c as usize];
                counts.set(c as usize, v + 1);
            }
        }
        i = i + 1;
    }
    assert(s.take(s.len() as int) =~= s);
    counts
}

/// The lowest index among those with the largest count.
fn first_max(counts: &Vec<usize>) -> (w: usize)
    requires
        counts@.len() >= 1,
    ensures
        is_winner(counts@.map_values(|c: usize| c as nat), w as int),
{
    let ghost m = counts@.map_values(|c: usize| c as nat);
    let mut best: usize = 0;
    let mut j: usize = 1;
    while j < counts.len()
        invariant
            best < j <= counts@.len(),
            m == counts@.map_values(|c: usize| c as nat),
            forall|k: int| 0 <= k < j ==> #[trigger] m[k] <= m[best as int],
            forall|k: int| 0 <= k < best ==> #[trigger] m[k] < m[best as int],
        decreases counts@.len() - j,
    {
        if counts[j] > counts[best] {
            best = j;
        }
        j = j + 1;
    }
    best
}

/// Closes the poll: tallies the ballots, then, if the poll is still open and
/// `sender` is the owner, fixes the winner and returns its index.
pub fn try_close(poll: &mut Poll, sender: &String) -> (r: Result<u8, ContractError>)
    requires
        old(poll).wf(),
        old(poll).config.options@.len() >= 1,
    ensures
        final(poll).wf(),
        r is Ok <==> close_outcome(*old(poll), sender@) is Ok,
        r matches Err(e) ==> close_outcome(*old(poll), sender@) == Err::<(), ContractError>(e)
            && *final(poll) == *old(poll),
        r matches Ok(w) ==> closed_by(*old(poll), *final(poll)) && final(poll).config.winner
            == Some(w),
{
    let n = poll.config.options.len();
    let counts = count_votes(&poll.votes, n);
    let best = first_max(&counts);
    proof {
        assert(counts@.map_values(|c: usize| c as nat) =~= tallies(
            poll.votes@,
            n as int,
        ));
    }
    if poll.config.winner.is_some() {
        return Err(ContractError::PollClosed {  });
    }
    if *sender != poll.config.owner {
        return Err(ContractError::Unauthorized {  });
    }
    let w = best as u8;
    poll.config.winner = Some(w);
    Ok(w)
}

/// Dispatches a query.
pub fn query(poll: &Poll, msg: QueryMsg) -> (r: QueryResponse)
    requires
        poll.wf(),
    ensures
        msg is GetQuestion ==> (r matches QueryResponse::Question(q) && q.question@
            == poll.config.question@),
        msg is GetVotes ==> (r matches QueryResponse::Votes(v) && lists_votes(v, *poll)),
        msg is GetOptions ==> (r matches QueryResponse::Options(o) && lists_options(o, *poll)),
        msg is GetWinner ==> (r matches QueryResponse::Winner(w) && reports_winner(w, *poll)),
{
    match msg {
        QueryMsg::GetVotes {  } => QueryResponse::Votes(query_votes(poll)),
        QueryMsg::GetQuestion {  } => QueryResponse::Question(query_question(poll)),
        QueryMsg::GetOptions {  } => QueryResponse::Options(query_options(poll)),
        QueryMsg::GetWinner {  } => QueryResponse::Winner(query_winner(poll)),
    }
}

/// `v` lists every ballot of `p`, in the table's ascending key order.
pub open spec fn lists_votes(v: VotesResponse, p: Poll) -> bool {
    &&& v.votes@.len() == p.votes@.len()
    &&& forall|i: int|
        0 <= i < v.votes@.len() ==> (#[trigger] v.votes@[i]).0@ == p.votes@[i].0 && v.votes@[i].1
            == p.votes@[i].1
}

/// `o` lists every option of `p` with its index, in index order.
pub open spec fn lists_options(o: OptionsResponse, p: Poll) -> bool {
    &&& o.options@.len() == p.config.options@.len()
    &&& forall|i: int|
        0 <= i < o.options@.len() ==> (#[trigger] o.options@[i]).0 as int == i
            && o.options@[i].1@ == p.config.options@[i]@
}

/// `w` holds the winning index and its label, or neither while `p` is open.
pub open spec fn reports_winner(w: WinnerResponse, p: Poll) -> bool {
    match p.config.winner {
        None => w.index is None && w.winner is None,
        Some(i) => w.index == Some(i) && (w.winner matches Some(label) && label@
            == p.config.options@[i as int]@),
    }
}

/// Every ballot with its choice.
pub fn query_votes(poll: &Poll) -> (r: VotesResponse)
    requires
        poll.wf(),
    ensures
        lists_votes(r, *poll),
{
    VotesResponse { votes: poll.votes.range() }
}

/// The poll's question.
pub fn query_question(poll: &Poll) -> (r: QuestionResponse)
    ensures
        r.question@ == poll.config.question@,
{
    QuestionResponse { question: poll.config.question.clone() }
}

/// The options with their indices.
pub fn query_options(poll: &Poll) -> (r: OptionsResponse)
    requires
        poll.wf(),
    ensures
        lists_options(r, *poll),
{
    let mut result: Vec<(u8, String)> = Vec::new();
    let mut i: usize = 0;
    while i < poll.config.options.len()
        invariant
            i <= poll.config.options@.len(),
            poll.config.options@.len() <= 127,
            result@.len() == i,
            forall|j: int|
                0 <= j < i ==> (#[trigger] result@[j]).0 as int == j && result@[j].1@
                    == poll.config.options@[j]@,
        decreases poll.config.options@.len() - i,
    {
        result.push((i as u8, poll.config.options[i].clone()));
        i = i + 1;
    }
    OptionsResponse { options: result }
}

/// The winner, once the poll is closed.
pub fn query_winner(poll: &Poll) -> (r: WinnerResponse)
    requires
        poll.wf(),
    ensures
        reports_winner(r, *poll),
{
    match poll.config.winner {
        None => WinnerResponse { index: None, winner: None },
        Some(index) => WinnerResponse {
            index: Some(index),
            winner: Some(poll.config.options[index as usize].clone()),
        },
    }
}

} // verus!
