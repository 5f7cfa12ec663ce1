use polls::contract::{execute, instantiate, query, try_close};
use polls::error::ContractError;
use polls::order::key_less;
use polls::msg::{
    ExecuteMsg, InstantiateMsg, OptionsResponse, QueryMsg, QueryResponse, QuestionResponse,
    VotesResponse, WinnerResponse,
};
use polls::state::Poll;

fn currency_poll() -> InstantiateMsg {
    InstantiateMsg {
        question: String::from("What's your favorite currency?"),
        options: vec![
            String::from("LUNA"),
            String::from("UST"),
            String::from("aUST"),
        ],
    }
}

fn get_votes(poll: &Poll) -> VotesResponse {
    match query(poll, QueryMsg::GetVotes {}) {
        QueryResponse::Votes(v) => v,
        other => panic!("unexpected response {:?}", other),
    }
}

fn get_winner(poll: &Poll) -> WinnerResponse {
    match query(poll, QueryMsg::GetWinner {}) {
        QueryResponse::Winner(w) => w,
        other => panic!("unexpected response {:?}", other),
    }
}

#[test]
fn initializes() {
    let msg = currency_poll();
    let poll = instantiate(String::from("creator"), msg).unwrap();

    // Query question
    let value: QuestionResponse = match query(&poll, QueryMsg::GetQuestion {}) {
        QueryResponse::Question(q) => q,
        other => panic!("unexpected response {:?}", other),
    };
    assert_eq!(value.question, String::from("What's your favorite currency?"));

    // Query options - should have LUNA, UST, and aUST as options
    let value: OptionsResponse = match query(&poll, QueryMsg::GetOptions {}) {
        QueryResponse::Options(o) => o,
        other => panic!("unexpected response {:?}", other),
    };
    assert_eq!(
        value.options,
        vec![
            (0, String::from("LUNA")),
            (1, String::from("UST")),
            (2, String::from("aUST")),
        ]
    );

    // Query votes - should have 1 registered voter (creator) with no vote
    let value = get_votes(&poll);
    assert_eq!(value.votes, vec![(String::from("creator"), None)]);
}

#[test]
fn owner_can_vote() {
    let mut poll = instantiate(String::from("creator"), currency_poll()).unwrap();
    let creator = String::from("creator");

    // Owner votes
    execute(&mut poll, &creator, ExecuteMsg::Vote { index: 1 }).unwrap();

    let value = get_votes(&poll);
    assert_eq!(value.votes, vec![(String::from("creator"), Some(1))]);
}

#[test]
fn owner_can_register_and_users_can_vote() {
    let creator = String::from("creator");
    let voter1 = String::from("voter1");
    let voter2 = String::from("voter2");
    let mut poll = instantiate(creator.clone(), currency_poll()).unwrap();

    let res = execute(&mut poll, &voter1, ExecuteMsg::Vote { index: 1 });
    if let Ok(_) = res {
        panic!("Voter 1 should not be able to vote. They have not been registered.");
    }

    // Register voter 1 and voter 2
    execute(&mut poll, &creator, ExecuteMsg::Register { address: voter1.clone() }).unwrap();
    execute(&mut poll, &creator, ExecuteMsg::Register { address: voter2.clone() }).unwrap();

    let value = get_votes(&poll);
    assert_eq!(
        value.votes,
        vec![
            (String::from("creator"), None),
            (String::from("voter1"), None),
            (String::from("voter2"), None),
        ]
    );

    // Everyone votes
    execute(&mut poll, &creator, ExecuteMsg::Vote { index: 0 }).unwrap();
    execute(&mut poll, &voter1, ExecuteMsg::Vote { index: 1 }).unwrap();
    let _res = execute(&mut poll, &voter2, ExecuteMsg::Vote { index: 0 });

    let value = get_votes(&poll);
    assert_eq!(
        value.votes,
        vec![
            (String::from("creator"), Some(0)),
            (String::from("voter1"), Some(1)),
            (String::from("voter2"), Some(0)),
        ]
    );
}

#[test]
fn only_owner_can_close() {
    let creator = String::from("creator");
    let voter1 = String::from("voter1");
    let voter2 = String::from("voter2");
    let mut poll = instantiate(creator.clone(), currency_poll()).unwrap();

    let _res = execute(&mut poll, &creator, ExecuteMsg::Register { address: voter1.clone() });
    let _res = execute(&mut poll, &creator, ExecuteMsg::Register { address: voter2.clone() });

    execute(&mut poll, &creator, ExecuteMsg::Vote { index: 0 }).unwrap();
    execute(&mut poll, &voter1, ExecuteMsg::Vote { index: 1 }).unwrap();
    execute(&mut poll, &voter2, ExecuteMsg::Vote { index: 0 }).unwrap();

    let res = execute(&mut poll, &voter1, ExecuteMsg::End {});
    if let Ok(_) = res {
        panic!("voter1 should not be able to close.");
    }

    // No winner yet
    let value = get_winner(&poll);
    assert_eq!(value.index, None);
    assert_eq!(value.winner, None);

    // Owner closes
    let _res = execute(&mut poll, &creator, ExecuteMsg::End {});

    let value = get_winner(&poll);
    assert_eq!(value.index, Some(0));
    assert_eq!(value.winner, Some(String::from("LUNA")));
}

fn labels(options: &[&str]) -> InstantiateMsg {
    InstantiateMsg {
        question: String::from("Q"),
        options: options.iter().map(|s| s.to_string()).collect(),
    }
}

#[test]
fn too_many_options_is_rejected() {
    let many: Vec<String> = (0..128).map(|i| format!("o{}", i)).collect();
    let res = instantiate(
        String::from("owner"),
        InstantiateMsg { question: String::from("Q"), options: many },
    );
    assert!(matches!(res, Err(ContractError::TooManyOptions {})));

    let most: Vec<String> = (0..127).map(|i| format!("o{}", i)).collect();
    let poll = instantiate(
        String::from("owner"),
        InstantiateMsg { question: String::from("Q"), options: most },
    )
    .unwrap();
    assert_eq!(poll.config.options.len(), 127);
}

#[test]
fn creation_registers_only_the_owner() {
    let poll = instantiate(String::from("owner"), labels(&["A"])).unwrap();
    assert_eq!(get_votes(&poll).votes, vec![(String::from("owner"), None)]);
    assert_eq!(poll.config.winner, None);
}

#[test]
fn empty_options_are_accepted() {
    let poll = instantiate(String::from("owner"), labels(&[])).unwrap();
    assert!(poll.config.options.is_empty());
}

#[test]
fn second_registration_is_rejected() {
    let owner = String::from("owner");
    let x = String::from("x");
    let mut poll = instantiate(owner.clone(), labels(&["A", "B"])).unwrap();
    execute(&mut poll, &owner, ExecuteMsg::Register { address: x.clone() }).unwrap();
    execute(&mut poll, &x, ExecuteMsg::Vote { index: 1 }).unwrap();
    let res = execute(&mut poll, &owner, ExecuteMsg::Register { address: x.clone() });
    assert_eq!(res, Err(ContractError::AlreadyRegistered {}));
    assert_eq!(
        get_votes(&poll).votes,
        vec![(String::from("owner"), None), (String::from("x"), Some(1))]
    );
}

#[test]
fn owner_registering_self_is_rejected() {
    let owner = String::from("owner");
    let mut poll = instantiate(owner.clone(), labels(&["A"])).unwrap();
    let res = execute(&mut poll, &owner, ExecuteMsg::Register { address: owner.clone() });
    assert_eq!(res, Err(ContractError::AlreadyRegistered {}));
}

#[test]
fn non_owner_is_unauthorized() {
    let owner = String::from("owner");
    let x = String::from("x");
    let mut poll = instantiate(owner.clone(), labels(&["A", "B"])).unwrap();
    execute(&mut poll, &owner, ExecuteMsg::Register { address: x.clone() }).unwrap();

    let res = execute(&mut poll, &x, ExecuteMsg::Register { address: String::from("y") });
    assert_eq!(res, Err(ContractError::Unauthorized {}));
    assert_eq!(try_close(&mut poll, &x), Err(ContractError::Unauthorized {}));
    assert_eq!(
        get_votes(&poll).votes,
        vec![(String::from("owner"), None), (String::from("x"), None)]
    );
    assert_eq!(get_winner(&poll).index, None);
}

#[test]
fn unregistered_voter_is_rejected() {
    let mut poll = instantiate(String::from("owner"), labels(&["A"])).unwrap();
    let res = execute(&mut poll, &String::from("stranger"), ExecuteMsg::Vote { index: 0 });
    assert_eq!(res, Err(ContractError::NotRegistered {}));
    assert_eq!(get_votes(&poll).votes.len(), 1);
}

#[test]
fn later_vote_replaces_earlier() {
    let owner = String::from("owner");
    let mut poll = instantiate(owner.clone(), labels(&["A", "B", "C"])).unwrap();
    execute(&mut poll, &owner, ExecuteMsg::Vote { index: 0 }).unwrap();
    execute(&mut poll, &owner, ExecuteMsg::Vote { index: 2 }).unwrap();
    assert_eq!(get_votes(&poll).votes, vec![(String::from("owner"), Some(2))]);
}

#[test]
fn tie_goes_to_lowest_index() {
    let owner = String::from("owner");
    let mut poll = instantiate(owner.clone(), labels(&["A", "B", "C"])).unwrap();
    let voters = ["v1", "v2", "v3", "v4"];
    for v in voters.iter() {
        execute(&mut poll, &owner, ExecuteMsg::Register { address: v.to_string() }).unwrap();
    }
    // counts [2, 2, 1]
    execute(&mut poll, &String::from("v1"), ExecuteMsg::Vote { index: 1 }).unwrap();
    execute(&mut poll, &String::from("v2"), ExecuteMsg::Vote { index: 0 }).unwrap();
    execute(&mut poll, &String::from("v3"), ExecuteMsg::Vote { index: 1 }).unwrap();
    execute(&mut poll, &String::from("v4"), ExecuteMsg::Vote { index: 2 }).unwrap();
    execute(&mut poll, &owner, ExecuteMsg::Vote { index: 0 }).unwrap();
    assert_eq!(try_close(&mut poll, &owner), Ok(0));
    let w = get_winner(&poll);
    assert_eq!(w.index, Some(0));
    assert_eq!(w.winner, Some(String::from("A")));
}

#[test]
fn plurality_winner_is_chosen() {
    let owner = String::from("owner");
    let mut poll = instantiate(owner.clone(), labels(&["A", "B", "C"])).unwrap();
    execute(&mut poll, &owner, ExecuteMsg::Register { address: String::from("v") }).unwrap();
    execute(&mut poll, &owner, ExecuteMsg::Vote { index: 2 }).unwrap();
    execute(&mut poll, &String::from("v"), ExecuteMsg::Vote { index: 2 }).unwrap();
    assert_eq!(try_close(&mut poll, &owner), Ok(2));
}

#[test]
fn second_close_is_rejected() {
    let owner = String::from("owner");
    let mut poll = instantiate(owner.clone(), labels(&["A", "B"])).unwrap();
    execute(&mut poll, &owner, ExecuteMsg::Vote { index: 1 }).unwrap();
    assert_eq!(try_close(&mut poll, &owner), Ok(1));
    assert_eq!(try_close(&mut poll, &owner), Err(ContractError::PollClosed {}));
    assert_eq!(
        execute(&mut poll, &String::from("x"), ExecuteMsg::End {}),
        Err(ContractError::PollClosed {})
    );
    assert_eq!(get_winner(&poll).index, Some(1));
}

#[test]
fn closed_poll_refuses_changes() {
    let owner = String::from("owner");
    let mut poll = instantiate(owner.clone(), labels(&["A", "B"])).unwrap();
    execute(&mut poll, &owner, ExecuteMsg::Vote { index: 1 }).unwrap();
    execute(&mut poll, &owner, ExecuteMsg::End {}).unwrap();
    assert_eq!(
        execute(&mut poll, &owner, ExecuteMsg::Register { address: String::from("x") }),
        Err(ContractError::PollClosed {})
    );
    assert_eq!(
        execute(&mut poll, &owner, ExecuteMsg::Vote { index: 0 }),
        Err(ContractError::PollClosed {})
    );
    for _ in 0..2 {
        let w = get_winner(&poll);
        assert_eq!(w.index, Some(1));
        assert_eq!(w.winner, Some(String::from("B")));
    }
    assert_eq!(get_votes(&poll).votes, vec![(String::from("owner"), Some(1))]);
}

#[test]
fn favorite_color_scenario() {
    let owner = String::from("owner");
    let x = String::from("X");
    let mut poll = instantiate(
        owner.clone(),
        InstantiateMsg {
            question: String::from("Favorite color?"),
            options: vec![String::from("Red"), String::from("Blue")],
        },
    )
    .unwrap();
    execute(&mut poll, &owner, ExecuteMsg::Register { address: x.clone() }).unwrap();
    execute(&mut poll, &x, ExecuteMsg::Vote { index: 1 }).unwrap();
    execute(&mut poll, &owner, ExecuteMsg::Vote { index: 1 }).unwrap();
    execute(&mut poll, &owner, ExecuteMsg::End {}).unwrap();
    let w = get_winner(&poll);
    assert_eq!(w.index, Some(1));
    assert_eq!(w.winner, Some(String::from("Blue")));
}

#[test]
fn no_votes_closes_on_first_option() {
    let owner = String::from("owner");
    let mut poll = instantiate(owner.clone(), labels(&["A", "B", "C"])).unwrap();
    execute(&mut poll, &owner, ExecuteMsg::End {}).unwrap();
    let w = get_winner(&poll);
    assert_eq!(w.index, Some(0));
    assert_eq!(w.winner, Some(String::from("A")));
}

#[test]
fn out_of_range_vote_counts_for_nothing() {
    let owner = String::from("owner");
    let mut poll = instantiate(owner.clone(), labels(&["A", "B"])).unwrap();
    execute(&mut poll, &owner, ExecuteMsg::Register { address: String::from("v") }).unwrap();
    execute(&mut poll, &owner, ExecuteMsg::Vote { index: 1 }).unwrap();
    execute(&mut poll, &String::from("v"), ExecuteMsg::Vote { index: 9 }).unwrap();
    assert_eq!(
        get_votes(&poll).votes,
        vec![(String::from("owner"), Some(1)), (String::from("v"), Some(9))]
    );
    assert_eq!(try_close(&mut poll, &owner), Ok(1));
}

#[test]
fn votes_are_listed_by_key_bytes() {
    let owner = String::from("m");
    let mut poll = instantiate(owner.clone(), labels(&["A"])).unwrap();
    for a in ["b", "é", "B", "ab", "a", "z"].iter() {
        execute(&mut poll, &owner, ExecuteMsg::Register { address: a.to_string() }).unwrap();
    }
    let listed: Vec<String> = get_votes(&poll).votes.into_iter().map(|v| v.0).collect();
    assert_eq!(listed, vec!["B", "a", "ab", "b", "m", "z", "é"]);
}

#[test]
fn key_order_compares_bytes() {
    assert!(key_less("a", "b"));
    assert!(!key_less("b", "a"));
    assert!(key_less("ab", "b"));
    assert!(key_less("a", "ab"));
    assert!(!key_less("ab", "ab"));
    assert!(key_less("Z", "a"));
    assert!(key_less("z", "é"));
    assert!(key_less("", "a"));
}
