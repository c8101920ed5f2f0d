//! The reputation ledger: one entry per known peer, the local node included.
//!
//! The ledger is a list of rows. Its meaning is a map from identity to entry:
//! an identity is looked up at the first row that carries it.

use crate::structs::LeaderboardEntry;
use vstd::prelude::*;

verus! {

/// The identities of `rows`, in order.
pub open spec fn keys(rows: Seq<(String, LeaderboardEntry)>) -> Seq<Seq<char>> {
    rows.map_values(|r: (String, LeaderboardEntry)| r.0@)
}

/// The map that `rows` stands for.
pub open spec fn scores(rows: Seq<(String, LeaderboardEntry)>) -> Map<Seq<char>, LeaderboardEntry> {
    Map::new(
        |k: Seq<char>| keys(rows).contains(k),
        |k: Seq<char>| rows[keys(rows).index_of_first(k).unwrap()].1,
    )
}

/// `i` is the first place at which `k` stands in `s`.
pub open spec fn first_at(s: Seq<Seq<char>>, k: Seq<char>, i: int) -> bool {
    &&& 0 <= i < s.len()
    &&& s[i] == k
    &&& forall|j: int| 0 <= j < i ==> s[j] != k
}

/// The first place of `k` in `s` is the one that `index_of_first` names.
pub proof fn lemma_first_at(s: Seq<Seq<char>>, k: Seq<char>, i: int)
    requires
        first_at(s, k, i),
    ensures
        s.contains(k),
        s.index_of_first(k) == Some(i),
{
    s.index_of_first_ensures(k);
    assert(s.contains(k));
    let j = s.index_of_first(k).unwrap();
    if j < i {
        assert(s[j] != k);
    }
    if i < j {
        assert(s[i] != k);
    }
}

/// The ledger of reputation entries.
#[derive(Debug, Clone, PartialEq)]
pub struct Leaderboard {
    pub rows: Vec<(String, LeaderboardEntry)>,
}

impl View for Leaderboard {
    type V = Map<Seq<char>, LeaderboardEntry>;

    open spec fn view(&self) -> Map<Seq<char>, LeaderboardEntry> {
        scores(self.rows@)
    }
}

impl Leaderboard {
    /// A ledger without entries.
    pub fn new() -> (ledger: Leaderboard)
        ensures
            ledger@ == Map::<Seq<char>, LeaderboardEntry>::empty(),
    {
        let ledger = Leaderboard { rows: Vec::new() };
        assert(ledger@ =~= Map::<Seq<char>, LeaderboardEntry>::empty());
        ledger
    }

    /// The first row that carries `node`, if there is one.
    fn position(&self, node: &String) -> (place: Option<usize>)
        ensures
            match place {
                Some(i) => first_at(keys(self.rows@), node@, i as int),
                None => !keys(self.rows@).contains(node@),
            },
    {
        let mut i: usize = 0;
        while i < self.rows.len()
            invariant
                i <= self.rows.len(),
                forall|j: int| 0 <= j < i ==> keys(self.rows@)[j] != node@,
            decreases self.rows.len() - i,
        {
            if self.rows[i].0 == *node {
                assert(keys(self.rows@)[i as int] == node@);
                return Some(i);
            }
            i += 1;
        }
        None
    }

    /// The entry of `node`, if the ledger has one.
    pub fn get(&self, node: &String) -> (entry: Option<LeaderboardEntry>)
        ensures
            entry == if self@.dom().contains(node@) {
                Some(self@[node@])
            } else {
                None
            },
    {
        match self.position(node) {
            Some(i) => {
                proof {
                    lemma_first_at(keys(self.rows@), node@, i as int);
                }
                Some(self.rows[i].1)
            },
            None => None,
        }
    }

    /// Sets the entry of `node` to `entry`, whether it had one or not.
    pub fn insert(&mut self, node: String, entry: LeaderboardEntry)
        ensures
            final(self)@ == old(self)@.insert(node@, entry),
    {
        let ghost before = self.rows@;
        match self.position(&node) {
            Some(i) => {
                self.rows.set(i, (node, entry));
                proof {
                    let after = self.rows@;
                    assert(keys(after) =~= keys(before));
                    assert forall|k: Seq<char>| keys(before).contains(k) implies #[trigger] scores(
                        after,
                    )[k] == scores(before).insert(node@, entry)[k] by {
                        keys(before).index_of_first_ensures(k);
                        lemma_first_at(keys(before), node@, i as int);
                    }
                    assert(keys(before).contains(node@)) by {
                        lemma_first_at(keys(before), node@, i as int);
                    }
                    assert(scores(after) =~= scores(before).insert(node@, entry));
                }
            },
            None => {
                self.rows.push((node, entry));
                proof {
                    let after = self.rows@;
                    let n = before.len() as int;
                    assert(keys(after) =~= keys(before).push(node@));
                    assert(first_at(keys(after), node@, n));
                    lemma_first_at(keys(after), node@, n);
                    assert forall|k: Seq<char>| #[trigger]
                        keys(after).contains(k) <==> (k == node@ || keys(before).contains(
                            k,
                        )) by {
                        if keys(before).contains(k) {
                            let j = choose|j: int|
                                0 <= j < keys(before).len() && keys(before)[j] == k;
                            assert(keys(after)[j] == k);
                        }
                        if keys(after).contains(k) {
                            let j = choose|j: int|
                                0 <= j < keys(after).len() && keys(after)[j] == k;
                            if j < n {
                                assert(keys(before)[j] == k);
                            }
                        }
                    }
                    assert forall|k: Seq<char>| keys(before).contains(k) implies scores(after)[k]
                        == scores(before)[k] by {
                        keys(before).index_of_first_ensures(k);
                        let j = keys(before).index_of_first(k).unwrap();
                        assert(first_at(keys(after), k, j));
                        lemma_first_at(keys(after), k, j);
                    }
                    assert(scores(after)[node@] == entry);
                    assert(scores(after) =~= scores(before).insert(node@, entry));
                }
            },
        }
    }

    /// Removes the entry of `node`, if the ledger has one.
    pub fn remove(&mut self, node: &String)
        ensures
            final(self)@ == old(self)@.remove(node@),
    {
        let ghost start = self.rows@;
        loop
            invariant
                scores(self.rows@).remove(node@) == scores(start).remove(node@),
            ensures
                scores(self.rows@) == scores(start).remove(node@),
            decreases self.rows.len(),
        {
            let ghost before = self.rows@;
            match self.position(node) {
                Some(i) => {
                    self.rows.remove(i);
                    proof {
                        let after = self.rows@;
                        assert(keys(after) =~= keys(before).remove(i as int));
                        assert forall|k: Seq<char>| k != node@ implies (#[trigger] keys(
                            after,
                        ).contains(k) <==> keys(before).contains(k)) by {
                            if keys(before).contains(k) {
                                let j = choose|j: int|
                                    0 <= j < keys(before).len() && keys(before)[j] == k;
                                let j2 = if j < i {
                                    j
                                } else {
                                    j - 1
                                };
                                assert(keys(after)[j2] == k);
                            }
                            if keys(after).contains(k) {
                                let j = choose|j: int|
                                    0 <= j < keys(after).len() && keys(after)[j] == k;
                                let j0 = if j < i {
                                    j
                                } else {
                                    j + 1
                                };
                                assert(keys(before)[j0] == k);
                            }
                        }
                        assert forall|k: Seq<char>| k != node@ && keys(before).contains(
                            k,
                        ) implies scores(after)[k] == scores(before)[k] by {
                            keys(before).index_of_first_ensures(k);
                            let j = keys(before).index_of_first(k).unwrap();
                            let j2 = if j < i {
                                j
                            } else {
                                j - 1
                            };
                            assert(first_at(keys(after), k, j2));
                            lemma_first_at(keys(after), k, j2);
                        }
                        assert(scores(after).remove(node@) =~= scores(before).remove(node@));
                    }
                },
                None => {
                    assert(scores(self.rows@).remove(node@) =~= scores(self.rows@));
                    break ;
                },
            }
        }
    }
}

} // verus!
