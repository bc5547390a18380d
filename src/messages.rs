//! The balance ledger: a running balance per user.

use vstd::prelude::*;
use crate::models::{StoreError, TransactionCommand, TransactionResponse};

verus! {

/// The balance a map records for `user`, zero where it has no entry.
pub open spec fn balance_in(m: Map<Seq<char>, int>, user: Seq<char>) -> int {
    if m.contains_key(user) {
        m[user]
    } else {
        0
    }
}

/// The map after `amount` is applied to `user`.
pub open spec fn apply_amount(m: Map<Seq<char>, int>, user: Seq<char>, amount: int) -> Map<
    Seq<char>,
    int,
> {
    m.insert(user, balance_in(m, user) + amount)
}

/// The map after each `(user, amount)` of `ops` is applied, first to last.
pub open spec fn replay(m: Map<Seq<char>, int>, ops: Seq<(Seq<char>, int)>) -> Map<
    Seq<char>,
    int,
>
    decreases ops.len(),
{
    if ops.len() == 0 {
        m
    } else {
        apply_amount(replay(m, ops.drop_last()), ops.last().0, ops.last().1)
    }
}

/// The sum of the amounts of `ops` that are applied to `user`.
pub open spec fn sum_for(ops: Seq<(Seq<char>, int)>, user: Seq<char>) -> int
    decreases ops.len(),
{
    if ops.len() == 0 {
        0
    } else {
        sum_for(ops.drop_last(), user) + if ops.last().0 == user {
            ops.last().1
        } else {
            0
        }
    }
}

/// `pairs` lists the map `m` exactly: one pair per key, no key twice.
pub open spec fn lists_map(pairs: Seq<(String, i64)>, m: Map<Seq<char>, int>) -> bool {
    &&& forall|i: int|
        0 <= i < pairs.len() ==> #[trigger] m.contains_key(pairs[i].0@) && m[pairs[i].0@]
            == pairs[i].1 as int
    &&& forall|k: Seq<char>|
        m.contains_key(k) ==> exists|i: int| 0 <= i < pairs.len() && #[trigger] pairs[i].0@ == k
    &&& forall|i: int, j: int|
        0 <= i < pairs.len() && 0 <= j < pairs.len() && i != j ==> pairs[i].0@ != pairs[j].0@
}

/// The ledger: at most one balance per user.
pub struct LedgerStore {
    entries: Vec<(String, i64)>,
    model: Ghost<Map<Seq<char>, int>>,
}

impl View for LedgerStore {
    type V = Map<Seq<char>, int>;

    closed spec fn view(&self) -> Map<Seq<char>, int> {
        self.model@
    }
}

impl LedgerStore {
    /// The entries list the model exactly.
    pub closed spec fn wf(&self) -> bool {
        lists_map(self.entries@, self.model@)
    }

    /// An empty ledger.
    pub fn new() -> (r: LedgerStore)
        ensures
            r.wf(),
            r@ == Map::<Seq<char>, int>::empty(),
    {
        LedgerStore { entries: Vec::new(), model: Ghost(Map::empty()) }
    }

    /// The position of `user`'s entry, if it has one.
    fn find(&self, user: &String) -> (r: Option<usize>)
        requires
            self.wf(),
        ensures
            match r {
                Some(i) => i < self.entries@.len() && self.entries@[i as int].0@ == user@,
                None => !self@.contains_key(user@),
            },
    {
        let mut i: usize = 0;
        while i < self.entries.len()
            invariant
                self.wf(),
                i <= self.entries@.len(),
                forall|j: int| 0 <= j < i ==> self.entries@[j].0@ != user@,
            decreases self.entries@.len() - i,
        {
            if self.entries[i].0 == *user {
                return Some(i);
            }
            i = i + 1;
        }
        None
    }

    /// Sets `user`'s balance to `balance`, adding an entry where it has none.
    fn store(&mut self, user: &String, balance: i64)
        requires
            old(self).wf(),
        ensures
            final(self).wf(),
            final(self)@ == old(self)@.insert(user@, balance as int),
    {
        let ghost m = self.model@;
        match self.find(user) {
            Some(i) => {
                let key = self.entries[i].0.clone();
                self.entries.set(i, (key, balance));
                self.model = Ghost(m.insert(user@, balance as int));
                assert forall|k: Seq<char>| #[trigger] self.model@.contains_key(k) implies exists|
                    j: int,
                | 0 <= j < self.entries@.len() && #[trigger] self.entries@[j].0@ == k by {
                    if k != user@ {
                        let j = choose|j: int|
                            0 <= j < old(self).entries@.len() && #[trigger] old(
                                self,
                            ).entries@[j].0@ == k;
                        assert(self.entries@[j].0@ == k);
                    } else {
                        assert(self.entries@[i as int].0@ == k);
                    }
                }
            },
            None => {
                self.entries.push((user.clone(), balance));
                self.model = Ghost(m.insert(user@, balance as int));
                let n = self.entries.len() - 1;
                assert forall|k: Seq<char>| #[trigger] self.model@.contains_key(k) implies exists|
                    j: int,
                | 0 <= j < self.entries@.len() && #[trigger] self.entries@[j].0@ == k by {
                    if k != user@ {
                        let j = choose|j: int|
                            0 <= j < old(self).entries@.len() && #[trigger] old(
                                self,
                            ).entries@[j].0@ == k;
                        assert(self.entries@[j].0@ == k);
                    } else {
                        assert(self.entries@[n as int].0@ == k);
                    }
                }
            },
        }
    }

    /// The current balance of `user`, zero where it has no entry.
    fn current(&self, user: &String) -> (r: i64)
        requires
            self.wf(),
        ensures
            r as int == balance_in(self@, user@),
    {
        match self.find(user) {
            Some(i) => self.entries[i].1,
            None => 0,
        }
    }

    /// Adds `cmd.amount` to the balance of `cmd.user_id` and returns the new
    /// balance; a user without an entry starts from the amount itself.
    pub fn apply(&mut self, cmd: &TransactionCommand) -> (r: Result<i64, StoreError>)
        requires
            old(self).wf(),
        ensures
            final(self).wf(),
            r is Err ==> final(self)@ == old(self)@,
            r == Err::<i64, StoreError>(StoreError::Validation) <==> !cmd.is_valid(),
            r == Err::<i64, StoreError>(StoreError::Overflow) <==> cmd.is_valid() && !(i64::MIN
                <= balance_in(old(self)@, cmd.user_id@) + cmd.amount <= i64::MAX),
            r matches Ok(b) ==> b == balance_in(old(self)@, cmd.user_id@) + cmd.amount
                && final(self)@ == apply_amount(old(self)@, cmd.user_id@, cmd.amount as int),
    {
        if cmd.user_id.as_str().is_empty() || cmd.transaction_id.as_str().is_empty() {
            return Err(StoreError::Validation);
        }
        let cur = self.current(&cmd.user_id);
        match cur.checked_add(cmd.amount) {
            Some(b) => {
                self.store(&cmd.user_id, b);
                Ok(b)
            },
            None => Err(StoreError::Overflow),
        }
    }

    /// The balance of `user`. A user without an entry is given one at zero.
    pub fn get_balance(&mut self, user: &String) -> (r: Result<i64, StoreError>)
        requires
            old(self).wf(),
        ensures
            final(self).wf(),
            r is Err <==> user@.len() == 0,
            r is Err ==> r == Err::<i64, StoreError>(StoreError::Validation) && final(self)@ == old(
                self,
            )@,
            r matches Ok(b) ==> b == balance_in(old(self)@, user@) && final(self)@ == old(
                self,
            )@.insert(user@, b as int),
    {
        if user.as_str().is_empty() {
            return Err(StoreError::Validation);
        }
        match self.find(user) {
            Some(i) => Ok(self.entries[i].1),
            None => {
                self.store(user, 0);
                Ok(0)
            },
        }
    }

    /// Every user with their balance, one pair per user.
    pub fn get_all_balances(&self) -> (r: Vec<(String, i64)>)
        requires
            self.wf(),
        ensures
            lists_map(r@, self@),
    {
        let mut out: Vec<(String, i64)> = Vec::new();
        let mut i: usize = 0;
        while i < self.entries.len()
            invariant
                self.wf(),
                i <= self.entries@.len(),
                out@.len() == i,
                forall|j: int|
                    0 <= j < i ==> #[trigger] out@[j].0@ == self.entries@[j].0@ && out@[j].1
                        == self.entries@[j].1,
            decreases self.entries@.len() - i,
        {
            let key = self.entries[i].0.clone();
            out.push((key, self.entries[i].1));
            i = i + 1;
        }
        assert forall|k: Seq<char>| self@.contains_key(k) implies exists|j: int|
            0 <= j < out@.len() && #[trigger] out@[j].0@ == k by {
            let j = choose|j: int|
                0 <= j < self.entries@.len() && #[trigger] self.entries@[j].0@ == k;
            assert(out@[j].0@ == k);
        }
        assert forall|a: int, b: int|
            0 <= a < out@.len() && 0 <= b < out@.len() && a != b implies out@[a].0@
            != out@[b].0@ by {
            assert(out@[a].0@ == self.entries@[a].0@);
            assert(out@[b].0@ == self.entries@[b].0@);
        }
        assert forall|a: int| 0 <= a < out@.len() implies #[trigger] self@.contains_key(
            out@[a].0@,
        ) && self@[out@[a].0@] == out@[a].1 as int by {
            assert(out@[a].0@ == self.entries@[a].0@);
        }
        out
    }
}

/// Applies `cmd` to the ledger and replies with the user and the new balance.
pub fn process_transaction(store: &mut LedgerStore, cmd: &TransactionCommand) -> (r: Result<
    TransactionResponse,
    StoreError,
>)
    requires
        old(store).wf(),
    ensures
        final(store).wf(),
        r is Err ==> final(store)@ == old(store)@,
        r == Err::<TransactionResponse, StoreError>(StoreError::Validation) <==> !cmd.is_valid(),
        r == Err::<TransactionResponse, StoreError>(StoreError::Overflow) <==> cmd.is_valid()
            && !(i64::MIN <= balance_in(old(store)@, cmd.user_id@) + cmd.amount <= i64::MAX),
        r matches Ok(resp) ==> resp.user_id@ == cmd.user_id@ && resp.balance == balance_in(
            old(store)@,
            cmd.user_id@,
        ) + cmd.amount && final(store)@ == apply_amount(
            old(store)@,
            cmd.user_id@,
            cmd.amount as int,
        ),
{
    match store.apply(cmd) {
        Ok(balance) => Ok(TransactionResponse { user_id: cmd.user_id.clone(), balance }),
        Err(e) => Err(e),
    }
}

/// The balance of `user_id`; reading a user without an entry gives it one at zero.
pub fn get_user_balance(store: &mut LedgerStore, user_id: &String) -> (r: Result<i64, StoreError>)
    requires
        old(store).wf(),
    ensures
        final(store).wf(),
        r is Err <==> user_id@.len() == 0,
        r is Err ==> r == Err::<i64, StoreError>(StoreError::Validation) && final(store)@ == old(
            store,
        )@,
        r matches Ok(b) ==> b == balance_in(old(store)@, user_id@) && final(store)@ == old(
            store,
        )@.insert(user_id@, b as int),
{
    store.get_balance(user_id)
}

/// A copy of every balance, one pair per user.
pub fn get_user_balances(store: &LedgerStore) -> (r: Vec<(String, i64)>)
    requires
        store.wf(),
    ensures
        lists_map(r@, store@),
{
    store.get_all_balances()
}

/// After any sequence of applies, a user's balance is the balance it started
/// with plus the sum of the amounts applied to that user.
pub proof fn law_balance_is_sum(m: Map<Seq<char>, int>, ops: Seq<(Seq<char>, int)>, user: Seq<char>)
    ensures
        balance_in(replay(m, ops), user) == balance_in(m, user) + sum_for(ops, user),
    decreases ops.len(),
{
    if ops.len() > 0 {
        law_balance_is_sum(m, ops.drop_last(), user);
    }
}

/// Applying one sequence of amounts and then another gives the same ledger as
/// applying the two sequences joined in one pass.
pub proof fn law_replay_concat(
    m: Map<Seq<char>, int>,
    first: Seq<(Seq<char>, int)>,
    second: Seq<(Seq<char>, int)>,
)
    ensures
        replay(replay(m, first), second) == replay(m, first + second),
    decreases second.len(),
{
    if second.len() == 0 {
        assert(first + second =~= first);
    } else {
        law_replay_concat(m, first, second.drop_last());
        assert((first + second).drop_last() =~= first + second.drop_last());
        assert((first + second).last() == second.last());
    }
}

/// Two applies that arrive one after the other may be taken in either order:
/// the ledger that results is the same, so every interleaving of concurrent
/// applies ends in the same balances.
pub proof fn law_swap_adjacent(m: Map<Seq<char>, int>, ops: Seq<(Seq<char>, int)>, i: int)
    requires
        0 <= i,
        i + 1 < ops.len(),
    ensures
        replay(m, ops) == replay(m, ops.update(i, ops[i + 1]).update(i + 1, ops[i])),
{
    let swapped = ops.update(i, ops[i + 1]).update(i + 1, ops[i]);
    let pre = ops.subrange(0, i);
    let post = ops.subrange(i + 2, ops.len() as int);
    let a = ops[i];
    let b = ops[i + 1];
    assert(ops =~= pre + seq![a, b] + post);
    assert(swapped =~= pre + seq![b, a] + post);
    law_replay_concat(m, pre + seq![a, b], post);
    law_replay_concat(m, pre + seq![b, a], post);
    law_replay_concat(m, pre, seq![a, b]);
    law_replay_concat(m, pre, seq![b, a]);
    let base = replay(m, pre);
    let empty = Seq::<(Seq<char>, int)>::empty();
    assert(seq![a, b].drop_last() =~= seq![a]);
    assert(seq![b, a].drop_last() =~= seq![b]);
    assert(seq![a].drop_last() =~= empty);
    assert(seq![b].drop_last() =~= empty);
    assert(replay(base, empty) == base);
    assert(replay(base, seq![a]) == apply_amount(base, a.0, a.1));
    assert(replay(base, seq![b]) == apply_amount(base, b.0, b.1));
    let ab = apply_amount(apply_amount(base, a.0, a.1), b.0, b.1);
    let ba = apply_amount(apply_amount(base, b.0, b.1), a.0, a.1);
    assert(replay(base, seq![a, b]) == ab);
    assert(replay(base, seq![b, a]) == ba);
    assert(ab =~= ba);
}

} // verus!
