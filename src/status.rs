//! A status board: the last message that each account set.
use vstd::prelude::*;

verus! {

/// Messages by account, one entry per account.
pub struct StatusMessage {
    records: Vec<(String, String)>,
}

pub open spec fn keys_unique(s: Seq<(String, String)>) -> bool {
    forall|i: int, j: int| 0 <= i < j < s.len() ==> #[trigger] s[i].0@ != #[trigger] s[j].0@
}

pub open spec fn has_key(s: Seq<(String, String)>, k: Seq<char>) -> bool {
    exists|i: int| 0 <= i < s.len() && #[trigger] s[i].0@ == k
}

pub open spec fn key_index(s: Seq<(String, String)>, k: Seq<char>) -> int {
    choose|i: int| 0 <= i < s.len() && #[trigger] s[i].0@ == k
}

pub open spec fn records_map(s: Seq<(String, String)>) -> Map<Seq<char>, Seq<char>> {
    Map::new(|k: Seq<char>| has_key(s, k), |k: Seq<char>| s[key_index(s, k)].1@)
}

impl View for StatusMessage {
    type V = Map<Seq<char>, Seq<char>>;

    closed spec fn view(&self) -> Map<Seq<char>, Seq<char>> {
        records_map(self.records@)
    }
}

impl Default for StatusMessage {
    fn default() -> (r: StatusMessage)
        ensures
            r@ == Map::<Seq<char>, Seq<char>>::empty(),
            r.wf(),
    {
        let r = StatusMessage { records: Vec::new() };
        assert(r@ =~= Map::<Seq<char>, Seq<char>>::empty());
        r
    }
}

impl StatusMessage {
    pub closed spec fn wf(&self) -> bool {
        keys_unique(self.records@)
    }

    fn position(&self, account_id: &String) -> (r: Option<usize>)
        requires
            self.wf(),
        ensures
            r is None <==> !has_key(self.records@, account_id@),
            r matches Some(i) ==> i < self.records@.len() && self.records@[i as int].0@
                == account_id@,
    {
        let mut i: usize = 0;
        while i < self.records.len()
            invariant
                i <= self.records@.len(),
                forall|a: int| 0 <= a < i ==> #[trigger] self.records@[a].0@ != account_id@,
            decreases self.records@.len() - i,
        {
            if self.records[i].0 == *account_id {
                return Some(i);
            }
            i = i + 1;
        }
        None
    }

    /// Sets the status of `account_id`, replacing any earlier one.
    pub fn set_status(&mut self, account_id: String, message: String)
        requires
            old(self).wf(),
        ensures
            final(self).wf(),
            final(self)@ == old(self)@.insert(account_id@, message@),
    {
        let ghost s = self.records@;
        let ghost k = account_id@;
        let ghost m = message@;
        match self.position(&account_id) {
            Some(i) => {
                self.records.set(i, (account_id, message));
                proof {
                    let t = self.records@;
                    assert(t == s.update(i as int, t[i as int]));
                    assert forall|a: int, b: int| 0 <= a < b < t.len() implies #[trigger] t[a].0@
                        != #[trigger] t[b].0@ by {
                        if a != i && b != i {
                            assert(s[a].0@ != s[b].0@);
                        } else if a == i {
                            assert(s[a].0@ != s[b].0@);
                        } else {
                            assert(s[a].0@ != s[b].0@);
                        }
                    }
                    assert forall|x: Seq<char>| has_key(t, x) == has_key(s, x) by {
                        if has_key(s, x) {
                            let j = key_index(s, x);
                            assert(t[j].0@ == x);
                        }
                        if has_key(t, x) {
                            let j = key_index(t, x);
                            assert(s[j].0@ == x);
                        }
                    }
                    assert forall|x: Seq<char>| #[trigger] has_key(t, x) && x != k implies t[key_index(
                        t,
                        x,
                    )].1@ == s[key_index(s, x)].1@ by {
                        let j = key_index(t, x);
                        let j2 = key_index(s, x);
                        assert(s[j].0@ == x);
                        if j != j2 {
                            if j < j2 {
                                assert(s[j].0@ != s[j2].0@);
                            } else {
                                assert(s[j2].0@ != s[j].0@);
                            }
                        }
                    }
                    assert(has_key(t, k));
                    let j = key_index(t, k);
                    if j != i {
                        if j < i {
                            assert(t[j].0@ != t[i as int].0@);
                        } else {
                            assert(t[i as int].0@ != t[j].0@);
                        }
                    }
                    assert(records_map(t) =~= records_map(s).insert(k, m));
                }
            },
            None => {
                self.records.push((account_id, message));
                proof {
                    let t = self.records@;
                    let n = s.len() as int;
                    assert(t[n].0@ == k);
                    assert forall|x: Seq<char>| has_key(t, x) == (has_key(s, x) || x == k) by {
                        if has_key(s, x) {
                            let j = key_index(s, x);
                            assert(t[j].0@ == x);
                        }
                        if has_key(t, x) && x != k {
                            let j = key_index(t, x);
                            assert(s[j].0@ == x);
                        }
                    }
                    assert forall|x: Seq<char>| #[trigger] has_key(t, x) && x != k implies t[key_index(
                        t,
                        x,
                    )].1@ == s[key_index(s, x)].1@ by {
                        let j = key_index(t, x);
                        let j2 = key_index(s, x);
                        assert(s[j].0@ == x);
                        if j != j2 {
                            if j < j2 {
                                assert(s[j].0@ != s[j2].0@);
                            } else {
                                assert(s[j2].0@ != s[j].0@);
                            }
                        }
                    }
                    let j = key_index(t, k);
                    assert(j == n);
                    assert(records_map(t) =~= records_map(s).insert(k, m));
                }
            },
        }
    }

    /// The status that `account_id` set, if any.
    pub fn get_status(&self, account_id: String) -> (r: Option<String>)
        requires
            self.wf(),
        ensures
            r is Some <==> self@.contains_key(account_id@),
            r matches Some(m) ==> m@ == self@[account_id@],
    {
        match self.position(&account_id) {
            Some(i) => {
                proof {
                    let s = self.records@;
                    let j = key_index(s, account_id@);
                    assert(has_key(s, account_id@));
                    if j != i {
                        if j < i {
                            assert(s[j].0@ != s[i as int].0@);
                        } else {
                            assert(s[i as int].0@ != s[j].0@);
                        }
                    }
                }
                Some(self.records[i].1.clone())
            },
            None => None,
        }
    }
}

} // verus!
