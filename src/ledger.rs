//! Per-user point balances, held as a vector of records sorted by user id.

use vstd::prelude::*;

verus! {

/// One user's balance.
#[derive(Clone, Copy, Debug, PartialEq, Eq, Structural)]
pub struct BalanceRecord {
    pub user_id: i64,
    pub balance: i64,
}

/// The map that a sequence of records describes; a later record for a user
/// overrides an earlier one.
pub open spec fn records_map(s: Seq<BalanceRecord>) -> Map<i64, i64>
    decreases s.len(),
{
    if s.len() == 0 {
        Map::empty()
    } else {
        records_map(s.drop_last()).insert(s.last().user_id, s.last().balance)
    }
}

/// User ids strictly increase along the sequence.
pub open spec fn ids_increasing(s: Seq<BalanceRecord>) -> bool {
    forall|i: int, j: int| 0 <= i < j < s.len() ==> s[i].user_id < s[j].user_id
}

/// The balance a map gives a user: its entry, or 0 if it has none.
pub open spec fn balance_in(m: Map<i64, i64>, user_id: i64) -> i64 {
    if m.contains_key(user_id) {
        m[user_id]
    } else {
        0
    }
}

/// With distinct ids, the map holds exactly the records' ids, each with its
/// record's balance.
pub(crate) proof fn lemma_records_map_distinct(s: Seq<BalanceRecord>)
    requires
        forall|i: int, j: int|
            0 <= i < s.len() && 0 <= j < s.len() && i != j ==> s[i].user_id != s[j].user_id,
    ensures
        forall|i: int|
            0 <= i < s.len() ==> #[trigger] records_map(s).contains_key(s[i].user_id)
                && records_map(s)[s[i].user_id] == s[i].balance,
        forall|u: i64|
            #[trigger] records_map(s).contains_key(u) ==> exists|i: int|
                0 <= i < s.len() && s[i].user_id == u,
    decreases s.len(),
{
    if s.len() > 0 {
        let t = s.drop_last();
        lemma_records_map_distinct(t);
        assert forall|i: int| 0 <= i < s.len() implies #[trigger] records_map(s).contains_key(
            s[i].user_id,
        ) && records_map(s)[s[i].user_id] == s[i].balance by {
            if i < s.len() - 1 {
                assert(t[i] == s[i]);
                assert(s[i].user_id != s[s.len() - 1].user_id);
                assert(records_map(t).contains_key(t[i].user_id));
            }
        }
        assert forall|u: i64| #[trigger] records_map(s).contains_key(u) implies exists|i: int|
            0 <= i < s.len() && s[i].user_id == u by {
            if u != s.last().user_id {
                assert(records_map(t).contains_key(u));
                let k = choose|k: int| 0 <= k < t.len() && t[k].user_id == u;
                assert(s[k] == t[k]);
            }
        }
    }
}

/// The in-memory balances of all users who have a record.
pub struct BalanceLedger {
    records: Vec<BalanceRecord>,
}

impl View for BalanceLedger {
    type V = Map<i64, i64>;

    closed spec fn view(&self) -> Map<i64, i64> {
        records_map(self.records@)
    }
}

impl BalanceLedger {
    /// The records are kept sorted by user id, one per user.
    pub closed spec fn wf(&self) -> bool {
        ids_increasing(self.records@)
    }

    /// An empty ledger.
    pub fn new() -> (r: BalanceLedger)
        ensures
            r.wf(),
            r@ == Map::<i64, i64>::empty(),
    {
        BalanceLedger { records: Vec::new() }
    }

    /// The first position whose user id is not below `user_id`.
    fn position(&self, user_id: i64) -> (p: usize)
        requires
            self.wf(),
        ensures
            p <= self.records@.len(),
            forall|i: int| 0 <= i < p ==> self.records@[i].user_id < user_id,
            forall|i: int| p <= i < self.records@.len() ==> self.records@[i].user_id >= user_id,
    {
        let mut lo: usize = 0;
        let mut hi: usize = self.records.len();
        while lo < hi
            invariant
                self.wf(),
                lo <= hi <= self.records@.len(),
                forall|i: int| 0 <= i < lo ==> self.records@[i].user_id < user_id,
                forall|i: int| hi <= i < self.records@.len() ==> self.records@[i].user_id >= user_id,
            decreases hi - lo,
        {
            let mid: usize = lo + (hi - lo) / 2;
            if self.records[mid].user_id < user_id {
                lo = mid + 1;
            } else {
                hi = mid;
            }
        }
        lo
    }

    /// The stored balance of `user_id`, or 0 for a user without a record.
    pub fn get(&self, user_id: i64) -> (r: i64)
        requires
            self.wf(),
        ensures
            r == balance_in(self@, user_id),
    {
        proof {
            lemma_records_map_distinct(self.records@);
        }
        let p = self.position(user_id);
        if p < self.records.len() && self.records[p].user_id == user_id {
            self.records[p].balance
        } else {
            proof {
                if self@.contains_key(user_id) {
                    let i = choose|i: int|
                        0 <= i < self.records@.len() && self.records@[i].user_id == user_id;
                    assert(i < p || i > p);
                }
            }
            0
        }
    }

    /// Sets the balance of `user_id`, creating its record if absent.
    fn store(&mut self, user_id: i64, balance: i64)
        requires
            old(self).wf(),
        ensures
            final(self).wf(),
            final(self)@ == old(self)@.insert(user_id, balance),
    {
        let ghost before = self.records@;
        let p = self.position(user_id);
        let rec = BalanceRecord { user_id, balance };
        proof {
            lemma_records_map_distinct(before);
        }
        if p < self.records.len() && self.records[p].user_id == user_id {
            self.records.set(p, rec);
            let ghost after = self.records@;
            proof {
                assert(ids_increasing(after));
                lemma_records_map_distinct(after);
                assert forall|u: i64| #[trigger] records_map(after).contains_key(u)
                    == records_map(before).insert(user_id, balance).contains_key(u) by {
                    assert(records_map(after).contains_key(after[p as int].user_id));
                    if records_map(before).contains_key(u) {
                        let i = choose|i: int| 0 <= i < before.len() && before[i].user_id == u;
                        if i != p {
                            assert(after[i] == before[i]);
                            assert(records_map(after).contains_key(after[i].user_id));
                        }
                    }
                    if records_map(after).contains_key(u) {
                        let i = choose|i: int| 0 <= i < after.len() && after[i].user_id == u;
                        if i != p {
                            assert(after[i] == before[i]);
                            assert(records_map(before).contains_key(before[i].user_id));
                        }
                    }
                }
                assert forall|u: i64| #[trigger] records_map(after).contains_key(u) implies records_map(
                    after,
                )[u] == records_map(before).insert(user_id, balance)[u] by {
                    let i = choose|i: int| 0 <= i < after.len() && after[i].user_id == u;
                    if i != p {
                        assert(after[i] == before[i]);
                    }
                }
                assert(records_map(after) =~= records_map(before).insert(user_id, balance));
            }
        } else {
            self.records.insert(p, rec);
            let ghost after = self.records@;
            proof {
                assert(ids_increasing(after));
                lemma_records_map_distinct(after);
                assert forall|u: i64| #[trigger] records_map(after).contains_key(u)
                    == records_map(before).insert(user_id, balance).contains_key(u) by {
                    assert(records_map(after).contains_key(after[p as int].user_id));
                    if records_map(before).contains_key(u) {
                        let i = choose|i: int| 0 <= i < before.len() && before[i].user_id == u;
                        if i < p {
                            assert(after[i] == before[i]);
                            assert(records_map(after).contains_key(after[i].user_id));
                        } else {
                            assert(after[i + 1] == before[i]);
                            assert(records_map(after).contains_key(after[i + 1].user_id));
                        }
                    }
                    if records_map(after).contains_key(u) {
                        let i = choose|i: int| 0 <= i < after.len() && after[i].user_id == u;
                        if i < p {
                            assert(after[i] == before[i]);
                            assert(records_map(before).contains_key(before[i].user_id));
                        } else if i > p {
                            assert(after[i] == before[i - 1]);
                            assert(records_map(before).contains_key(before[i - 1].user_id));
                        }
                    }
                }
                assert forall|u: i64| #[trigger] records_map(after).contains_key(u) implies records_map(
                    after,
                )[u] == records_map(before).insert(user_id, balance)[u] by {
                    let i = choose|i: int| 0 <= i < after.len() && after[i].user_id == u;
                    if i < p {
                        assert(after[i] == before[i]);
                    } else if i > p {
                        assert(after[i] == before[i - 1]);
                    }
                }
                assert(records_map(after) =~= records_map(before).insert(user_id, balance));
            }
        }
    }

    /// Adds `amount` to the balance of `user_id` (a user without a record
    /// starts from 0) and returns the new balance.
    pub fn credit(&mut self, user_id: i64, amount: i64) -> (r: i64)
        requires
            old(self).wf(),
            i64::MIN <= balance_in(old(self)@, user_id) + amount <= i64::MAX,
        ensures
            final(self).wf(),
            r == balance_in(old(self)@, user_id) + amount,
            final(self)@ == old(self)@.insert(user_id, r),
    {
        let current = self.get(user_id);
        let updated = current + amount;
        self.store(user_id, updated);
        updated
    }

    /// A copy of every record, sorted by user id.
    pub fn snapshot(&self) -> (r: Vec<BalanceRecord>)
        requires
            self.wf(),
        ensures
            ids_increasing(r@),
            records_map(r@) == self@,
    {
        let mut out: Vec<BalanceRecord> = Vec::new();
        let mut i: usize = 0;
        while i < self.records.len()
            invariant
                i <= self.records@.len(),
                out@ == self.records@.subrange(0, i as int),
            decreases self.records@.len() - i,
        {
            out.push(self.records[i]);
            i += 1;
            assert(out@ =~= self.records@.subrange(0, i as int));
        }
        assert(out@ =~= self.records@);
        out
    }

    /// A ledger holding the given records; where several records name the
    /// same user, the last one counts.
    pub fn from_records(records: Vec<BalanceRecord>) -> (r: BalanceLedger)
        ensures
            r.wf(),
            r@ == records_map(records@),
    {
        let mut ledger = BalanceLedger::new();
        let mut i: usize = 0;
        while i < records.len()
            invariant
                i <= records@.len(),
                ledger.wf(),
                ledger@ == records_map(records@.subrange(0, i as int)),
            decreases records@.len() - i,
        {
            let rec = records[i];
            ledger.store(rec.user_id, rec.balance);
            i += 1;
            assert(records@.subrange(0, i as int).drop_last() =~= records@.subrange(0, i as int - 1));
        }
        assert(records@.subrange(0, records@.len() as int) =~= records@);
        ledger
    }
}

} // verus!
