//! The facade: it validates a request, builds the command that both stores
//! receive, records how long each backend took, and reconciles the replies.
//!
//! The calls to the stores are made by the caller, concurrently; the functions
//! here decide what happens before and after them.

use vstd::prelude::*;
use crate::models::{
    Metrics, ServiceKind, TransactionCommand, TransactionMessage, TransactionResponse,
    UserInfoResponse,
};

verus! {

/// Why the facade refused or failed a request.
#[derive(Clone, Copy, Debug, PartialEq, Eq, Structural)]
pub enum FacadeError {
    /// The request was malformed; no backend was called.
    Validation,
    /// The ledger could not be reached, failed, or sent an unreadable reply.
    Upstream,
}

/// `a + b`, or the largest `u128` where the sum does not fit.
pub open spec fn add_capped(a: int, b: int) -> int {
    if a + b > u128::MAX {
        u128::MAX as int
    } else {
        a + b
    }
}

/// The character of a decimal digit.
pub open spec fn digit_char(d: nat) -> char {
    if d == 0 {
        '0'
    } else if d == 1 {
        '1'
    } else if d == 2 {
        '2'
    } else if d == 3 {
        '3'
    } else if d == 4 {
        '4'
    } else if d == 5 {
        '5'
    } else if d == 6 {
        '6'
    } else if d == 7 {
        '7'
    } else if d == 8 {
        '8'
    } else {
        '9'
    }
}

/// The decimal notation of `n`, without leading zeros.
pub open spec fn decimal(n: nat) -> Seq<char>
    decreases n,
{
    if n < 10 {
        seq![digit_char(n)]
    } else {
        decimal(n / 10).push(digit_char(n % 10))
    }
}

/// The transaction id built from a unique value and a timestamp.
pub open spec fn transaction_id_of(unique: Seq<char>, nanos: nat) -> Seq<char> {
    unique + seq!['-'] + decimal(nanos)
}

/// Adds `nanos` to the counter of `service`, capped at the largest `u128`.
pub fn update_timing(metrics: &mut Metrics, service: ServiceKind, nanos: u128)
    ensures
        service == ServiceKind::Counter ==> final(metrics).counter_time == add_capped(
            old(metrics).counter_time as int,
            nanos as int,
        ) && final(metrics).logging_time == old(metrics).logging_time,
        service == ServiceKind::Logging ==> final(metrics).logging_time == add_capped(
            old(metrics).logging_time as int,
            nanos as int,
        ) && final(metrics).counter_time == old(metrics).counter_time,
        final(metrics).counter_time >= old(metrics).counter_time,
        final(metrics).logging_time >= old(metrics).logging_time,
{
    match service {
        ServiceKind::Counter => {
            let cur = metrics.counter_time;
            metrics.counter_time = if nanos > u128::MAX - cur {
                u128::MAX
            } else {
                cur + nanos
            };
        },
        ServiceKind::Logging => {
            let cur = metrics.logging_time;
            metrics.logging_time = if nanos > u128::MAX - cur {
                u128::MAX
            } else {
                cur + nanos
            };
        },
    }
}

/// Recording an elapsed time never lowers a counter, and recording a
/// positive one leaves the counter positive.
pub proof fn law_timing_grows(before: u128, elapsed: u128)
    ensures
        add_capped(before as int, elapsed as int) >= before,
        elapsed > 0 ==> add_capped(before as int, elapsed as int) > 0,
        add_capped(before as int, elapsed as int) <= u128::MAX,
{
}

/// A copy of both counters, taken together.
pub fn get_timings(metrics: &Metrics) -> (r: Metrics)
    ensures
        r == *metrics,
{
    *metrics
}

/// The one-character string of a decimal digit.
fn digit_str(d: u128) -> (r: &'static str)
    requires
        d < 10,
    ensures
        r@ == seq![digit_char(d as nat)],
{
    proof {
        reveal_strlit("0");
        reveal_strlit("1");
        reveal_strlit("2");
        reveal_strlit("3");
        reveal_strlit("4");
        reveal_strlit("5");
        reveal_strlit("6");
        reveal_strlit("7");
        reveal_strlit("8");
        reveal_strlit("9");
    }
    if d == 0 {
        "0"
    } else if d == 1 {
        "1"
    } else if d == 2 {
        "2"
    } else if d == 3 {
        "3"
    } else if d == 4 {
        "4"
    } else if d == 5 {
        "5"
    } else if d == 6 {
        "6"
    } else if d == 7 {
        "7"
    } else if d == 8 {
        "8"
    } else {
        "9"
    }
}

/// The decimal notation of `n`.
pub fn decimal_string(n: u128) -> (r: String)
    ensures
        r@ == decimal(n as nat),
    decreases n,
{
    if n < 10 {
        String::from_str(digit_str(n))
    } else {
        let mut s = decimal_string(n / 10);
        s.append(digit_str(n % 10));
        s
    }
}

/// Joins a unique value and a timestamp into a transaction id: the value, a
/// dash, and the timestamp in decimal.
pub fn make_transaction_id(unique: &String, nanos: u128) -> (r: String)
    ensures
        r@ == transaction_id_of(unique@, nanos as nat),
{
    let mut s = unique.clone();
    s.append("-");
    proof {
        reveal_strlit("-");
    }
    let digits = decimal_string(nanos);
    s.append(digits.as_str());
    s
}

/// Relies on uuid::Uuid::new_v4 and its hyphenated lower-case text form,
/// which is always 36 characters long; the value itself is random.
#[verifier::external_body]
fn random_uuid_text() -> (r: String)
    ensures
        r@.len() == 36,
{
    uuid::Uuid::new_v4().to_string()
}

/// Checks a client's transaction: the user id must not be empty.
pub fn validate_message(msg: &TransactionMessage) -> (r: Result<(), FacadeError>)
    ensures
        r is Ok <==> msg.user_id@.len() > 0,
        r is Err ==> r == Err::<(), FacadeError>(FacadeError::Validation),
{
    if msg.user_id.as_str().is_empty() {
        Err(FacadeError::Validation)
    } else {
        Ok(())
    }
}

/// Validates `msg` and builds the command that both stores receive, with a
/// fresh transaction id: a random unique value, a dash, and `nanos` (the
/// time of the request) in decimal. An invalid message is refused before
/// anything is generated.
pub fn prepare_transaction(msg: TransactionMessage, nanos: u128) -> (r: Result<
    TransactionCommand,
    FacadeError,
>)
    ensures
        r is Err <==> msg.user_id@.len() == 0,
        r is Err ==> r == Err::<TransactionCommand, FacadeError>(FacadeError::Validation),
        r matches Ok(cmd) ==> {
            &&& cmd.user_id@ == msg.user_id@
            &&& cmd.amount == msg.amount
            &&& cmd.transaction_id@.len() == 37 + decimal(nanos as nat).len()
            &&& cmd.transaction_id@ == transaction_id_of(
                cmd.transaction_id@.subrange(0, 36),
                nanos as nat,
            )
            &&& cmd.is_valid()
        },
{
    match validate_message(&msg) {
        Err(e) => Err(e),
        Ok(()) => {
            let unique = random_uuid_text();
            let transaction_id = make_transaction_id(&unique, nanos);
            assert(transaction_id@.subrange(0, 36) =~= unique@);
            Ok(TransactionCommand { transaction_id, user_id: msg.user_id, amount: msg.amount })
        },
    }
}

/// Finishes a submitted transaction once both stores have answered: records
/// each backend's elapsed time, then answers from the ledger's reply alone.
/// `ledger_reply` is `None` where the ledger call failed, was not a success,
/// or could not be decoded; the log's outcome changes nothing in the answer.
pub fn process_transaction(
    metrics: &mut Metrics,
    ledger_nanos: u128,
    log_nanos: u128,
    ledger_reply: Option<TransactionResponse>,
    log_acknowledged: bool,
) -> (r: Result<TransactionResponse, FacadeError>)
    ensures
        final(metrics).counter_time == add_capped(
            old(metrics).counter_time as int,
            ledger_nanos as int,
        ),
        final(metrics).logging_time == add_capped(old(metrics).logging_time as int, log_nanos as int),
        r == match ledger_reply {
            Some(resp) => Ok::<TransactionResponse, FacadeError>(resp),
            None => Err::<TransactionResponse, FacadeError>(FacadeError::Upstream),
        },
{
    update_timing(metrics, ServiceKind::Counter, ledger_nanos);
    update_timing(metrics, ServiceKind::Logging, log_nanos);
    match ledger_reply {
        Some(resp) => Ok(resp),
        None => Err(FacadeError::Upstream),
    }
}

/// Checks the user id of a user-info request: it must not be empty.
pub fn validate_user_id(user_id: &String) -> (r: Result<(), FacadeError>)
    ensures
        r is Ok <==> user_id@.len() > 0,
        r is Err ==> r == Err::<(), FacadeError>(FacadeError::Validation),
{
    if user_id.as_str().is_empty() {
        Err(FacadeError::Validation)
    } else {
        Ok(())
    }
}

/// Finishes a user-info request once both stores have answered: records each
/// backend's elapsed time and combines the replies, each on its own. A reply
/// that is `None` (failed, not a success, or unreadable) becomes its zero
/// value: a balance of zero, no transactions.
pub fn get_user_info(
    metrics: &mut Metrics,
    ledger_nanos: u128,
    log_nanos: u128,
    balance_reply: Option<i64>,
    transactions_reply: Option<Vec<i64>>,
) -> (r: UserInfoResponse)
    ensures
        final(metrics).counter_time == add_capped(
            old(metrics).counter_time as int,
            ledger_nanos as int,
        ),
        final(metrics).logging_time == add_capped(old(metrics).logging_time as int, log_nanos as int),
        r.balance == match balance_reply {
            Some(b) => b,
            None => 0,
        },
        r.transactions@ == match transactions_reply {
            Some(v) => v@,
            None => Seq::<i64>::empty(),
        },
{
    update_timing(metrics, ServiceKind::Counter, ledger_nanos);
    update_timing(metrics, ServiceKind::Logging, log_nanos);
    let balance = match balance_reply {
        Some(b) => b,
        None => 0,
    };
    let transactions = match transactions_reply {
        Some(v) => v,
        None => Vec::new(),
    };
    UserInfoResponse { balance, transactions }
}

/// Finishes a request for every balance: records the ledger's elapsed time
/// and passes its reply on, or fails where there is none.
pub fn get_accounts_balances(
    metrics: &mut Metrics,
    ledger_nanos: u128,
    ledger_reply: Option<Vec<(String, i64)>>,
) -> (r: Result<Vec<(String, i64)>, FacadeError>)
    ensures
        final(metrics).counter_time == add_capped(
            old(metrics).counter_time as int,
            ledger_nanos as int,
        ),
        final(metrics).logging_time == old(metrics).logging_time,
        r == match ledger_reply {
            Some(v) => Ok::<Vec<(String, i64)>, FacadeError>(v),
            None => Err::<Vec<(String, i64)>, FacadeError>(FacadeError::Upstream),
        },
{
    update_timing(metrics, ServiceKind::Counter, ledger_nanos);
    match ledger_reply {
        Some(v) => Ok(v),
        None => Err(FacadeError::Upstream),
    }
}

} // verus!
