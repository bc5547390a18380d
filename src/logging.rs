//! The transaction log: one record per transaction id.

use vstd::prelude::*;
use crate::models::{StoreError, TransactionCommand};

verus! {

/// A logged transaction: its id, its user and its amount.
pub type LogRecord = (Seq<char>, Seq<char>, int);

/// The record that a command leaves in the log.
pub open spec fn record_of(cmd: TransactionCommand) -> LogRecord {
    (cmd.transaction_id@, cmd.user_id@, cmd.amount as int)
}

/// No two records share a transaction id.
pub open spec fn ids_unique(s: Seq<LogRecord>) -> bool {
    forall|i: int, j: int| 0 <= i < s.len() && 0 <= j < s.len() && i != j ==> s[i].0 != s[j].0
}

/// Some record of `s` has the transaction id `id`.
pub open spec fn has_id(s: Seq<LogRecord>, id: Seq<char>) -> bool {
    exists|i: int| 0 <= i < s.len() && #[trigger] s[i].0 == id
}

/// The log after `rec` is written: it replaces the record with the same id,
/// or is added at the end where there is none.
pub open spec fn write_record(s: Seq<LogRecord>, rec: LogRecord) -> Seq<LogRecord> {
    if has_id(s, rec.0) {
        s.update(choose|i: int| 0 <= i < s.len() && #[trigger] s[i].0 == rec.0, rec)
    } else {
        s.push(rec)
    }
}

/// The log after each record of `recs` is written, first to last.
pub open spec fn write_all(s: Seq<LogRecord>, recs: Seq<LogRecord>) -> Seq<LogRecord>
    decreases recs.len(),
{
    if recs.len() == 0 {
        s
    } else {
        write_record(write_all(s, recs.drop_last()), recs.last())
    }
}

/// The amounts of the records of `s` that belong to `user`, in log order.
pub open spec fn amounts_for(s: Seq<LogRecord>, user: Seq<char>) -> Seq<int>
    decreases s.len(),
{
    if s.len() == 0 {
        Seq::empty()
    } else if s.last().1 == user {
        amounts_for(s.drop_last(), user).push(s.last().2)
    } else {
        amounts_for(s.drop_last(), user)
    }
}

/// The log store.
pub struct TransactionLog {
    entries: Vec<TransactionCommand>,
}

impl View for TransactionLog {
    type V = Seq<LogRecord>;

    closed spec fn view(&self) -> Seq<LogRecord> {
        self.entries@.map_values(|c: TransactionCommand| record_of(c))
    }
}

impl TransactionLog {
    /// No transaction id is logged twice.
    pub open spec fn wf(&self) -> bool {
        ids_unique(self@)
    }

    /// An empty log.
    pub fn new() -> (r: TransactionLog)
        ensures
            r.wf(),
            r@ == Seq::<LogRecord>::empty(),
    {
        let r = TransactionLog { entries: Vec::new() };
        assert(r@ =~= Seq::<LogRecord>::empty());
        r
    }

    /// Records `cmd` under its transaction id, replacing any earlier record
    /// with that id.
    pub fn append(&mut self, cmd: TransactionCommand) -> (r: Result<(), StoreError>)
        requires
            old(self).wf(),
        ensures
            final(self).wf(),
            r is Err <==> !cmd.is_valid(),
            r is Err ==> r == Err::<(), StoreError>(StoreError::Validation) && final(self)@ == old(
                self,
            )@,
            r is Ok ==> final(self)@ == write_record(old(self)@, record_of(cmd)),
    {
        if cmd.user_id.as_str().is_empty() || cmd.transaction_id.as_str().is_empty() {
            return Err(StoreError::Validation);
        }
        let ghost s = self@;
        let ghost rec = record_of(cmd);
        let mut i: usize = 0;
        while i < self.entries.len()
            invariant
                self@ == s,
                rec == record_of(cmd),
                s == old(self)@,
                cmd.is_valid(),
                ids_unique(s),
                i <= self.entries@.len(),
                forall|j: int| 0 <= j < i ==> self.entries@[j].transaction_id@ != cmd.transaction_id@,
            decreases self.entries@.len() - i,
        {
            if self.entries[i].transaction_id == cmd.transaction_id {
                assert(s[i as int] == record_of(self.entries@[i as int]));
                assert(s[i as int].0 == rec.0);
                assert(has_id(s, rec.0));
                let ghost k = choose|k: int| 0 <= k < s.len() && #[trigger] s[k].0 == rec.0;
                assert(k == i);
                self.entries.set(i, cmd);
                assert(self@ =~= s.update(i as int, rec));
                return Ok(());
            }
            i = i + 1;
        }
        assert(!has_id(s, rec.0)) by {
            if has_id(s, rec.0) {
                let k = choose|k: int| 0 <= k < s.len() && #[trigger] s[k].0 == rec.0;
                assert(s[k] == record_of(self.entries@[k]));
            }
        }
        self.entries.push(cmd);
        assert(self@ =~= s.push(rec));
        Ok(())
    }

    /// The amounts logged for `user`, in log order.
    pub fn get_user_transactions(&self, user: &String) -> (r: Result<Vec<i64>, StoreError>)
        ensures
            r is Err <==> user@.len() == 0,
            r is Err ==> r == Err::<Vec<i64>, StoreError>(StoreError::Validation),
            r matches Ok(v) ==> v@.map_values(|a: i64| a as int) == amounts_for(self@, user@),
    {
        if user.as_str().is_empty() {
            return Err(StoreError::Validation);
        }
        let mut out: Vec<i64> = Vec::new();
        let mut i: usize = 0;
        while i < self.entries.len()
            invariant
                i <= self.entries@.len(),
                out@.map_values(|a: i64| a as int) == amounts_for(self@.subrange(0, i as int), user@),
            decreases self.entries@.len() - i,
        {
            let ghost before = out@;
            assert(self@.subrange(0, i + 1).drop_last() =~= self@.subrange(0, i as int));
            if self.entries[i].user_id == *user {
                out.push(self.entries[i].amount);
                assert(out@.map_values(|a: i64| a as int) =~= before.map_values(|a: i64| a as int).push(
                    self.entries@[i as int].amount as int,
                ));
            }
            i = i + 1;
        }
        assert(self@.subrange(0, self.entries@.len() as int) =~= self@);
        Ok(out)
    }
}

/// Writes `cmd` to the log.
pub fn process_transaction(log: &mut TransactionLog, cmd: TransactionCommand) -> (r: Result<
    (),
    StoreError,
>)
    requires
        old(log).wf(),
    ensures
        final(log).wf(),
        r is Err <==> !cmd.is_valid(),
        r is Err ==> r == Err::<(), StoreError>(StoreError::Validation) && final(log)@ == old(log)@,
        r is Ok ==> final(log)@ == write_record(old(log)@, record_of(cmd)),
{
    log.append(cmd)
}

/// The amounts logged for `user_id`.
pub fn get_user_transactions(log: &TransactionLog, user_id: &String) -> (r: Result<
    Vec<i64>,
    StoreError,
>)
    ensures
        r is Err <==> user_id@.len() == 0,
        r is Err ==> r == Err::<Vec<i64>, StoreError>(StoreError::Validation),
        r matches Ok(v) ==> v@.map_values(|a: i64| a as int) == amounts_for(log@, user_id@),
{
    log.get_user_transactions(user_id)
}

/// Writing records with distinct transaction ids to an empty log keeps every
/// one of them, in order.
pub proof fn law_distinct_writes_kept(recs: Seq<LogRecord>)
    requires
        ids_unique(recs),
    ensures
        write_all(Seq::empty(), recs) == recs,
    decreases recs.len(),
{
    if recs.len() > 0 {
        let front = recs.drop_last();
        law_distinct_writes_kept(front);
        assert(!has_id(front, recs.last().0)) by {
            if has_id(front, recs.last().0) {
                let k = choose|k: int| 0 <= k < front.len() && #[trigger] front[k].0 == recs.last().0;
                assert(recs[k].0 == recs[recs.len() - 1].0);
            }
        }
        assert(front.push(recs.last()) =~= recs);
    }
}

/// Appending transactions with distinct ids for one user to an empty log and
/// then asking for that user's transactions gives back exactly the amounts
/// appended.
pub proof fn law_round_trip(recs: Seq<LogRecord>, user: Seq<char>)
    requires
        ids_unique(recs),
        forall|i: int| 0 <= i < recs.len() ==> #[trigger] recs[i].1 == user,
    ensures
        amounts_for(write_all(Seq::empty(), recs), user) == recs.map_values(|r: LogRecord| r.2),
{
    law_distinct_writes_kept(recs);
    lemma_amounts_of_one_user(recs, user);
}

proof fn lemma_amounts_of_one_user(recs: Seq<LogRecord>, user: Seq<char>)
    requires
        forall|i: int| 0 <= i < recs.len() ==> #[trigger] recs[i].1 == user,
    ensures
        amounts_for(recs, user) == recs.map_values(|r: LogRecord| r.2),
    decreases recs.len(),
{
    if recs.len() > 0 {
        let front = recs.drop_last();
        assert forall|i: int| 0 <= i < front.len() implies #[trigger] front[i].1 == user by {
            assert(front[i] == recs[i]);
        }
        lemma_amounts_of_one_user(front, user);
        assert(recs.last().1 == user);
        assert(recs.map_values(|r: LogRecord| r.2) =~= front.map_values(|r: LogRecord| r.2).push(
            recs.last().2,
        ));
    }
}

} // verus!
