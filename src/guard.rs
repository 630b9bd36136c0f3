//! The decisions that a write transaction takes on what it has just read
//! inside itself, at serializable isolation. A store runs the transaction;
//! these functions say whether it goes on, and how its failures are reported.

use vstd::prelude::*;
use crate::ids::{CheckoutId, UserId};
use crate::model::{ActiveCheckout, LedgerError};

verus! {

/// The outcome of a check-out, given whether the book exists and its live loan.
pub open spec fn check_out_verdict(book_exists: bool, active: Option<ActiveCheckout>) -> Result<
    (),
    LedgerError,
> {
    if !book_exists {
        Err(LedgerError::NotFound)
    } else if active is Some {
        Err(LedgerError::Conflict)
    } else {
        Ok(())
    }
}

/// The outcome of a return of loan `checkout_id` by `returned_by` at
/// `returned_at`, given the book's live loan: that loan when it matches.
/// A return dated before the check-out does not match the live loan either.
pub open spec fn return_verdict(
    active: Option<ActiveCheckout>,
    checkout_id: CheckoutId,
    returned_by: UserId,
    returned_at: i64,
) -> Result<ActiveCheckout, LedgerError> {
    match active {
        None => Err(LedgerError::NotFound),
        Some(a) => if a.checkout_id == checkout_id && a.borrower_id == returned_by
            && a.checked_out_at <= returned_at {
            Ok(a)
        } else {
            Err(LedgerError::Conflict)
        },
    }
}

/// Decides a check-out from the state read inside its transaction.
pub fn check_out_precondition(book_exists: bool, active: Option<ActiveCheckout>) -> (r: Result<
    (),
    LedgerError,
>)
    ensures
        r == check_out_verdict(book_exists, active),
{
    if !book_exists {
        Err(LedgerError::NotFound)
    } else if active.is_some() {
        Err(LedgerError::Conflict)
    } else {
        Ok(())
    }
}

/// Decides a return from the live loan read inside its transaction.
pub fn return_precondition(
    active: Option<ActiveCheckout>,
    checkout_id: CheckoutId,
    returned_by: UserId,
    returned_at: i64,
) -> (r: Result<ActiveCheckout, LedgerError>)
    ensures
        r == return_verdict(active, checkout_id, returned_by, returned_at),
{
    match active {
        None => Err(LedgerError::NotFound),
        Some(a) => {
            if a.checkout_id == checkout_id && a.borrower_id == returned_by && a.checked_out_at
                <= returned_at {
                Ok(a)
            } else {
                Err(LedgerError::Conflict)
            }
        },
    }
}

/// A write inside the transaction that touched no row met a concurrent
/// change: the transaction is abandoned as a conflict.
pub fn require_rows_written(rows_affected: u64) -> (r: Result<(), LedgerError>)
    ensures
        rows_affected >= 1 ==> r == Ok::<(), LedgerError>(()),
        rows_affected == 0 ==> r == Err::<(), LedgerError>(LedgerError::Conflict),
{
    if rows_affected >= 1 {
        Ok(())
    } else {
        Err(LedgerError::Conflict)
    }
}

/// Whether a SQLSTATE code reports a transaction that the store aborted
/// because it raced with another one: a serialization failure or a deadlock.
pub open spec fn is_race_code(sqlstate: Seq<char>) -> bool {
    sqlstate == "40001"@ || sqlstate == "40P01"@
}

/// How a store error met by a write transaction is reported: an aborted race
/// is a `Conflict`, anything else a `StorageFailure`. `sqlstate` is the code
/// the store gave, if any.
pub fn classify_store_error(sqlstate: Option<&String>) -> (r: LedgerError)
    ensures
        r == (match sqlstate {
            Some(code) => if is_race_code(code@) {
                LedgerError::Conflict
            } else {
                LedgerError::StorageFailure
            },
            None => LedgerError::StorageFailure,
        }),
{
    match sqlstate {
        None => LedgerError::StorageFailure,
        Some(code) => {
            let serialization = "40001".to_owned();
            let deadlock = "40P01".to_owned();
            proof {
                reveal_strlit("40001");
                reveal_strlit("40P01");
            }
            if *code == serialization || *code == deadlock {
                LedgerError::Conflict
            } else {
                LedgerError::StorageFailure
            }
        },
    }
}

} // verus!
