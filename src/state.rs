use vstd::prelude::*;

use crate::order::{key_less, key_lt, lemma_key_lt_irreflexive, lemma_key_lt_total, lemma_key_lt_transitive};

verus! {

/// Entries are strictly ascending by key bytes, so no identity appears twice.
pub open spec fn sorted_keys(s: Seq<(Seq<char>, Option<u8>)>) -> bool {
    forall|i: int, j: int| 0 <= i < j < s.len() ==> key_lt(#[trigger] s[i].0, #[trigger] s[j].0)
}

/// Whether `k` holds a ballot in `s`.
pub open spec fn has_ballot(s: Seq<(Seq<char>, Option<u8>)>, k: Seq<char>) -> bool {
    exists|i: int| 0 <= i < s.len() && #[trigger] s[i].0 == k
}

/// The ballots of `s` as a map from voter identity to choice.
pub open spec fn ballot_map(s: Seq<(Seq<char>, Option<u8>)>) -> Map<Seq<char>, Option<u8>> {
    Map::new(
        |k: Seq<char>| has_ballot(s, k),
        |k: Seq<char>| s[choose|i: int| 0 <= i < s.len() && #[trigger] s[i].0 == k].1,
    )
}

pub proof fn lemma_ballot_at(s: Seq<(Seq<char>, Option<u8>)>, i: int)
    requires
        sorted_keys(s),
        0 <= i < s.len(),
    ensures
        ballot_map(s).contains_key(s[i].0),
        ballot_map(s)[s[i].0] == s[i].1,
{
    assert(has_ballot(s, s[i].0));
    let j = choose|j: int| 0 <= j < s.len() && #[trigger] s[j].0 == s[i].0;
    if j < i {
        assert(key_lt(s[j].0, s[i].0));
        lemma_key_lt_irreflexive(s[i].0);
    } else if i < j {
        assert(key_lt(s[i].0, s[j].0));
        lemma_key_lt_irreflexive(s[i].0);
    }
}

/// Every key of the map stands at some index of a sorted sequence.
pub proof fn lemma_ballot_map_of_sorted(s: Seq<(Seq<char>, Option<u8>)>)
    requires
        sorted_keys(s),
    ensures
        forall|i: int|
            #![trigger s[i]]
            0 <= i < s.len() ==> ballot_map(s).contains_key(s[i].0) && ballot_map(s)[s[i].0]
                == s[i].1,
{
    assert forall|i: int|
        #![trigger s[i]]
        0 <= i < s.len() implies ballot_map(s).contains_key(s[i].0) && ballot_map(s)[s[i].0]
        == s[i].1 by {
        lemma_ballot_at(s, i);
    }
}

/// The persisted configuration of a poll.
pub struct Config {
    /// The identity that created the poll.
    pub owner: String,
    /// The question being polled.
    pub question: String,
    /// The option labels, addressed by index.
    pub options: Vec<String>,
    /// The winning option index, set once when the poll is closed.
    pub winner: Option<u8>,
}

/// The ballot table: one record per registered voter, keyed by identity and
/// kept in ascending order of the identity's UTF-8 bytes.
pub struct Votes {
    entries: Vec<(String, Option<u8>)>,
}

impl View for Votes {
    type V = Seq<(Seq<char>, Option<u8>)>;

    closed spec fn view(&self) -> Self::V {
        self.entries@.map_values(|e: (String, Option<u8>)| (e.0@, e.1))
    }
}

impl Votes {
    pub open spec fn wf(&self) -> bool {
        sorted_keys(self@)
    }

    /// The registered voters and their choices.
    pub open spec fn ballots(&self) -> Map<Seq<char>, Option<u8>> {
        ballot_map(self@)
    }

    /// An empty table.
    pub fn new() -> (r: Votes)
        ensures
            r@ == Seq::<(Seq<char>, Option<u8>)>::empty(),
            r.wf(),
    {
        let r = Votes { entries: Vec::new() };
        assert(r@ =~= Seq::<(Seq<char>, Option<u8>)>::empty());
        r
    }

    /// The first index whose key does not come before `k`, and whether that
    /// key is `k` itself.
    fn position(&self, k: &String) -> (r: (bool, usize))
        requires
            self.wf(),
        ensures
            r.1 <= self@.len(),
            forall|j: int| 0 <= j < r.1 ==> key_lt(#[trigger] self@[j].0, k@),
            r.0 == (r.1 < self@.len() && self@[r.1 as int].0 == k@),
            r.1 < self@.len() && !r.0 ==> key_lt(k@, self@[r.1 as int].0),
    {
        let mut i: usize = 0;
        while i < self.entries.len() && key_less(self.entries[i].0.as_str(), k.as_str())
            invariant
                i <= self@.len(),
                self@.len() == self.entries@.len(),
                forall|j: int| 0 <= j < i ==> key_lt(#[trigger] self@[j].0, k@),
            decreases self.entries@.len() - i,
        {
            i = i + 1;
        }
        if i < self.entries.len() {
            let found = self.entries[i].0 == *k;
            proof {
                if !found {
                    lemma_key_lt_total(self@[i as int].0, k@);
                }
            }
            (found, i)
        } else {
            (false, i)
        }
    }

    /// The ballot of `k`: `None` when `k` is not registered, else its choice.
    pub fn load(&self, k: &String) -> (r: Option<Option<u8>>)
        requires
            self.wf(),
        ensures
            r == (if self.ballots().contains_key(k@) {
                Some(self.ballots()[k@])
            } else {
                None
            }),
    {
        let (found, i) = self.position(k);
        if found {
            proof {
                lemma_ballot_at(self@, i as int);
            }
            Some(self.entries[i].1)
        } else {
            proof {
                self.lemma_absent(k@, i as int);
            }
            None
        }
    }

    proof fn lemma_absent(&self, k: Seq<char>, p: int)
        requires
            self.wf(),
            0 <= p <= self@.len(),
            forall|j: int| 0 <= j < p ==> key_lt(#[trigger] self@[j].0, k),
            p < self@.len() ==> key_lt(k, self@[p].0),
        ensures
            !self.ballots().contains_key(k),
    {
        if has_ballot(self@, k) {
            let j = choose|j: int| 0 <= j < self@.len() && #[trigger] self@[j].0 == k;
            lemma_key_lt_irreflexive(k);
            if p < j {
                lemma_key_lt_transitive(k, self@[p].0, k);
            }
        }
    }

    /// Writes the ballot of `k`, replacing any earlier one.
    pub fn save(&mut self, k: String, c: Option<u8>)
        requires
            old(self).wf(),
        ensures
            final(self).wf(),
            final(self).ballots() == old(self).ballots().insert(k@, c),
            final(self)@.len() == old(self)@.len() + (if old(self).ballots().contains_key(k@) {
                0int
            } else {
                1int
            }),
    {
        let ghost s = self@;
        let ghost kv = k@;
        let (found, i) = self.position(&k);
        proof {
            lemma_ballot_map_of_sorted(s);
        }
        if found {
            self.entries.set(i, (k, c));
            let ghost t = self@;
            assert(t =~= s.update(i as int, (kv, c)));
            proof {
                lemma_ballot_map_of_sorted(t);
            }
            assert forall|x: Seq<char>| #[trigger] has_ballot(t, x) == (has_ballot(s, x) || x == kv) by {
                if has_ballot(s, x) {
                    let j = choose|j: int| 0 <= j < s.len() && #[trigger] s[j].0 == x;
                    assert(t[j].0 == x);
                }
                if has_ballot(t, x) {
                    let j = choose|j: int| 0 <= j < t.len() && #[trigger] t[j].0 == x;
                    if j != i {
                        assert(s[j].0 == x);
                    }
                }
            }
            assert forall|x: Seq<char>| has_ballot(t, x) implies #[trigger] ballot_map(t)[x] == ballot_map(s).insert(kv, c)[x] by {
                let j = choose|j: int| 0 <= j < t.len() && #[trigger] t[j].0 == x;
                assert(ballot_map(t)[t[j].0] == t[j].1);
                if j != i {
                    assert(ballot_map(s)[s[j].0] == s[j].1);
                    lemma_key_lt_irreflexive(x);
                    if j < i {
                        assert(key_lt(s[j].0, s[i as int].0));
                    } else {
                        assert(key_lt(s[i as int].0, s[j].0));
                    }
                }
            }
            assert(ballot_map(t) =~= ballot_map(s).insert(kv, c));
        } else {
            proof {
                self.lemma_absent(kv, i as int);
            }
            self.entries.insert(i, (k, c));
            let ghost t = self@;
            assert(t =~= s.insert(i as int, (kv, c)));
            assert forall|a: int, b: int| 0 <= a < b < t.len() implies key_lt(#[trigger] t[a].0, #[trigger] t[b].0) by {
                if b < i {
                } else if b == i {
                } else if a < i {
                    assert(key_lt(s[a].0, kv));
                    assert(key_lt(kv, s[i as int].0));
                    lemma_key_lt_transitive(s[a].0, kv, s[i as int].0);
                    if b - 1 > i {
                        lemma_key_lt_transitive(s[a].0, s[i as int].0, s[b - 1].0);
                    }
                } else if a == i {
                    if b - 1 > i {
                        lemma_key_lt_transitive(kv, s[i as int].0, s[b - 1].0);
                    }
                } else {
                    assert(key_lt(s[a - 1].0, s[b - 1].0));
                }
            }
            proof {
                lemma_ballot_map_of_sorted(t);
            }
            assert forall|x: Seq<char>| #[trigger] has_ballot(t, x) == (has_ballot(s, x) || x == kv) by {
                if has_ballot(s, x) {
                    let j = choose|j: int| 0 <= j < s.len() && #[trigger] s[j].0 == x;
                    if j < i {
                        assert(t[j].0 == x);
                    } else {
                        assert(t[j + 1].0 == x);
                    }
                }
                if x == kv {
                    assert(t[i as int].0 == x);
                }
                if has_ballot(t, x) {
                    let j = choose|j: int| 0 <= j < t.len() && #[trigger] t[j].0 == x;
                    if j < i {
                        assert(s[j].0 == x);
                    } else if j > i {
                        assert(s[j - 1].0 == x);
                    }
                }
            }
            assert forall|x: Seq<char>| has_ballot(t, x) implies #[trigger] ballot_map(t)[x] == ballot_map(s).insert(kv, c)[x] by {
                let j = choose|j: int| 0 <= j < t.len() && #[trigger] t[j].0 == x;
                assert(ballot_map(t)[t[j].0] == t[j].1);
                if j < i {
                    assert(ballot_map(s)[s[j].0] == s[j].1);
                } else if j > i {
                    assert(ballot_map(s)[s[j - 1].0] == s[j - 1].1);
                }
            }
            assert(ballot_map(t) =~= ballot_map(s).insert(kv, c));
        }
    }

    /// All ballots, in ascending order of the identity's key bytes.
    pub fn range(&self) -> (r: Vec<(String, Option<u8>)>)
        ensures
            r@.len() == self@.len(),
            forall|i: int| 0 <= i < r@.len() ==> (#[trigger] r@[i]).0@ == self@[i].0 && r@[i].1 == self@[i].1,
    {
        let mut r: Vec<(String, Option<u8>)> = Vec::new();
        let mut i: usize = 0;
        while i < self.entries.len()
            invariant
                i <= self.entries@.len(),
                self@.len() == self.entries@.len(),
                r@.len() == i,
                forall|j: int| 0 <= j < i ==> (#[trigger] r@[j]).0@ == self@[j].0 && r@[j].1 == self@[j].1,
            decreases self.entries@.len() - i,
        {
            let e = &self.entries[i];
            r.push((e.0.clone(), e.1));
            i = i + 1;
        }
        r
    }
}

/// A poll: its configuration and its ballot table.
pub struct Poll {
    pub config: Config,
    pub votes: Votes,
}

impl Poll {
    /// At most 127 options, a winner that indexes them, and a well-ordered ballot table.
    pub open spec fn wf(&self) -> bool {
        &&& self.config.options@.len() <= 127
        &&& (self.config.winner matches Some(w) ==> (w as int) < self.config.options@.len())
        &&& self.votes.wf()
    }
}

} // verus!
