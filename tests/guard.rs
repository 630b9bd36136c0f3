use book_ledger::guard::{
    check_out_precondition, classify_store_error, require_rows_written, return_precondition,
};
use book_ledger::ids::{BookId, CheckoutId, UserId};
use book_ledger::model::{ActiveCheckout, LedgerError};

fn loan() -> ActiveCheckout {
    ActiveCheckout {
        checkout_id: CheckoutId { value: 7 },
        book_id: BookId { value: 1 },
        borrower_id: UserId { value: 2 },
        checked_out_at: 100,
    }
}

#[test]
fn check_out_precondition_outcomes() {
    assert_eq!(check_out_precondition(false, None), Err(LedgerError::NotFound));
    assert_eq!(check_out_precondition(true, Some(loan())), Err(LedgerError::Conflict));
    assert_eq!(check_out_precondition(true, None), Ok(()));
}

#[test]
fn return_precondition_outcomes() {
    let id = CheckoutId { value: 7 };
    let user = UserId { value: 2 };
    assert_eq!(return_precondition(None, id, user, 200), Err(LedgerError::NotFound));
    assert_eq!(return_precondition(Some(loan()), id, user, 200), Ok(loan()));
    assert_eq!(
        return_precondition(Some(loan()), CheckoutId { value: 8 }, user, 200),
        Err(LedgerError::Conflict)
    );
    assert_eq!(
        return_precondition(Some(loan()), id, UserId { value: 3 }, 200),
        Err(LedgerError::Conflict)
    );
    assert_eq!(return_precondition(Some(loan()), id, user, 99), Err(LedgerError::Conflict));
    assert_eq!(return_precondition(Some(loan()), id, user, 100), Ok(loan()));
}

#[test]
fn rows_written_outcomes() {
    assert_eq!(require_rows_written(0), Err(LedgerError::Conflict));
    assert_eq!(require_rows_written(1), Ok(()));
    assert_eq!(require_rows_written(3), Ok(()));
}

#[test]
fn store_errors_are_classified() {
    let serialization = "40001".to_string();
    let deadlock = "40P01".to_string();
    let unique = "23505".to_string();
    assert_eq!(classify_store_error(Some(&serialization)), LedgerError::Conflict);
    assert_eq!(classify_store_error(Some(&deadlock)), LedgerError::Conflict);
    assert_eq!(classify_store_error(Some(&unique)), LedgerError::StorageFailure);
    assert_eq!(classify_store_error(None), LedgerError::StorageFailure);
}
