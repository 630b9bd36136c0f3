use book_ledger::catalog::BookRepositoryImpl;
use book_ledger::ids::{BookId, CheckoutId, UserId};
use book_ledger::ledger::CheckoutRepositoryImpl;
use book_ledger::model::{
    ActiveCheckout, ArchivedCheckout, CheckoutRecord, CreateBook, CreateCheckout, LedgerError,
    UpdateReturned,
};

fn ledger_with_book() -> (CheckoutRepositoryImpl, BookId) {
    let mut ledger = CheckoutRepositoryImpl::new(BookRepositoryImpl::new());
    let b = ledger
        .register_book(CreateBook {
            title: "The Rust Programming Language".to_string(),
            author: "Steve Klabnik and Carol Nichols".to_string(),
            isbn: "9781593278281".to_string(),
            description: "A comprehensive guide to Rust programming.".to_string(),
        })
        .unwrap();
    (ledger, b)
}

fn lend(ledger: &mut CheckoutRepositoryImpl, b: BookId, u: u128, t: i64) -> Result<CheckoutId, LedgerError> {
    ledger.create(CreateCheckout { book_id: b, checked_out_by: UserId { value: u }, checked_out_at: t })
}

fn give_back(
    ledger: &mut CheckoutRepositoryImpl,
    id: CheckoutId,
    b: BookId,
    u: u128,
    t: i64,
) -> Result<(), LedgerError> {
    ledger.update_returned(UpdateReturned {
        checkout_id: id,
        book_id: b,
        returned_by: UserId { value: u },
        returned_at: t,
    })
}

#[test]
fn second_check_out_of_same_book_conflicts() {
    let (mut ledger, b) = ledger_with_book();
    let first = lend(&mut ledger, b, 1, 100);
    let second = lend(&mut ledger, b, 2, 101);
    assert!(first.is_ok());
    assert_eq!(second, Err(LedgerError::Conflict));
    assert_eq!(ledger.find_unreturned_all().len(), 1);
}

#[test]
fn return_with_wrong_checkout_id_conflicts() {
    let (mut ledger, b) = ledger_with_book();
    let id = lend(&mut ledger, b, 1, 100).unwrap();
    let wrong = CheckoutId { value: id.value + 7 };
    assert_eq!(give_back(&mut ledger, wrong, b, 1, 200), Err(LedgerError::Conflict));
    let live = ledger.find_unreturned_by_book_id(b).unwrap();
    assert_eq!(live.checkout_id, id);
    assert_eq!(live.checked_out_at, 100);
}

#[test]
fn return_by_other_user_conflicts() {
    let (mut ledger, b) = ledger_with_book();
    let id = lend(&mut ledger, b, 1, 100).unwrap();
    assert_eq!(give_back(&mut ledger, id, b, 2, 200), Err(LedgerError::Conflict));
    assert!(ledger.find_unreturned_by_book_id(b).is_some());
}

#[test]
fn return_dated_before_check_out_conflicts() {
    let (mut ledger, b) = ledger_with_book();
    let id = lend(&mut ledger, b, 1, 100).unwrap();
    assert_eq!(give_back(&mut ledger, id, b, 1, 99), Err(LedgerError::Conflict));
}

#[test]
fn check_out_then_return_round_trip() {
    let (mut ledger, b) = ledger_with_book();
    let id = lend(&mut ledger, b, 1, 100).unwrap();
    assert_eq!(give_back(&mut ledger, id, b, 1, 250), Ok(()));
    assert!(ledger.find_unreturned_by_book_id(b).is_none());
    let history = ledger.find_history_by_book_id(b);
    assert_eq!(
        history,
        vec![CheckoutRecord::Archived(ArchivedCheckout {
            checkout_id: id,
            book_id: b,
            borrower_id: UserId { value: 1 },
            checked_out_at: 100,
            returned_at: 250,
        })]
    );
}

#[test]
fn check_out_of_missing_book_is_not_found() {
    let (mut ledger, b) = ledger_with_book();
    let missing = BookId { value: b.value + 1 };
    assert_eq!(lend(&mut ledger, missing, 1, 100), Err(LedgerError::NotFound));
    assert!(ledger.find_unreturned_all().is_empty());
    assert!(ledger.find_history_by_book_id(missing).is_empty());
}

#[test]
fn check_out_of_lent_book_keeps_original_loan() {
    let (mut ledger, b) = ledger_with_book();
    let id = lend(&mut ledger, b, 1, 100).unwrap();
    assert_eq!(lend(&mut ledger, b, 2, 150), Err(LedgerError::Conflict));
    let live = ledger.find_unreturned_by_book_id(b).unwrap();
    assert_eq!(
        live,
        ActiveCheckout { checkout_id: id, book_id: b, borrower_id: UserId { value: 1 }, checked_out_at: 100 }
    );
}

#[test]
fn repeated_loans_history_newest_first() {
    let (mut ledger, b) = ledger_with_book();
    let n = 5;
    for k in 0..n {
        let id = lend(&mut ledger, b, 1, 10 * k).unwrap();
        give_back(&mut ledger, id, b, 1, 10 * k + 5).unwrap();
    }
    let history = ledger.find_history_by_book_id(b);
    assert_eq!(history.len(), n as usize);
    let starts: Vec<i64> = history
        .iter()
        .map(|r| match r {
            CheckoutRecord::Archived(a) => a.checked_out_at,
            CheckoutRecord::Active(_) => panic!("no loan should be live"),
        })
        .collect();
    assert_eq!(starts, vec![40, 30, 20, 10, 0]);
    assert!(ledger.find_unreturned_by_book_id(b).is_none());
}

#[test]
fn history_puts_live_loan_first() {
    let (mut ledger, b) = ledger_with_book();
    let id = lend(&mut ledger, b, 1, 10).unwrap();
    give_back(&mut ledger, id, b, 1, 20).unwrap();
    let live = lend(&mut ledger, b, 2, 30).unwrap();
    let history = ledger.find_history_by_book_id(b);
    assert_eq!(history.len(), 2);
    assert_eq!(
        history[0],
        CheckoutRecord::Active(ActiveCheckout {
            checkout_id: live,
            book_id: b,
            borrower_id: UserId { value: 2 },
            checked_out_at: 30,
        })
    );
    assert!(matches!(history[1], CheckoutRecord::Archived(a) if a.checkout_id == id));
}

#[test]
fn history_sorts_by_check_out_time_not_return_order() {
    let (mut ledger, b) = ledger_with_book();
    let late = lend(&mut ledger, b, 1, 500).unwrap();
    give_back(&mut ledger, late, b, 1, 600).unwrap();
    let early = lend(&mut ledger, b, 1, 100).unwrap();
    give_back(&mut ledger, early, b, 1, 700).unwrap();
    let history = ledger.find_history_by_book_id(b);
    let ids: Vec<CheckoutId> = history
        .iter()
        .map(|r| match r {
            CheckoutRecord::Archived(a) => a.checkout_id,
            CheckoutRecord::Active(a) => a.checkout_id,
        })
        .collect();
    assert_eq!(ids, vec![late, early]);
}

#[test]
fn second_return_of_same_loan_is_not_found() {
    let (mut ledger, b) = ledger_with_book();
    let id = lend(&mut ledger, b, 1, 100).unwrap();
    give_back(&mut ledger, id, b, 1, 200).unwrap();
    assert_eq!(give_back(&mut ledger, id, b, 1, 300), Err(LedgerError::NotFound));
    assert_eq!(ledger.find_history_by_book_id(b).len(), 1);
}

#[test]
fn checkout_ids_are_unique() {
    let (mut ledger, b) = ledger_with_book();
    let mut seen: Vec<CheckoutId> = Vec::new();
    for k in 0..4 {
        let id = lend(&mut ledger, b, 3, k).unwrap();
        assert!(!seen.contains(&id));
        seen.push(id);
        give_back(&mut ledger, id, b, 3, k).unwrap();
    }
}

#[test]
fn unreturned_lists_are_newest_first_and_filtered() {
    let mut ledger = CheckoutRepositoryImpl::new(BookRepositoryImpl::new());
    let mut books = Vec::new();
    for k in 0..3 {
        books.push(
            ledger
                .register_book(CreateBook {
                    title: format!("book {k}"),
                    author: "A".to_string(),
                    isbn: "1".to_string(),
                    description: "D".to_string(),
                })
                .unwrap(),
        );
    }
    lend(&mut ledger, books[0], 1, 20).unwrap();
    lend(&mut ledger, books[1], 2, 50).unwrap();
    lend(&mut ledger, books[2], 1, 30).unwrap();
    let all: Vec<i64> = ledger.find_unreturned_all().iter().map(|c| c.checked_out_at).collect();
    assert_eq!(all, vec![50, 30, 20]);
    let mine: Vec<BookId> = ledger
        .find_unreturned_by_user_id(UserId { value: 1 })
        .iter()
        .map(|c| c.book_id)
        .collect();
    assert_eq!(mine, vec![books[2], books[0]]);
    assert!(ledger.find_unreturned_by_user_id(UserId { value: 9 }).is_empty());
}

#[test]
fn ledger_catalog_sees_registered_books() {
    let (ledger, b) = ledger_with_book();
    assert!(ledger.catalog().contains(b));
    assert_eq!(ledger.catalog().find_all().len(), 1);
}

#[test]
fn random_operations_never_give_a_book_two_live_loans() {
    let mut ledger = CheckoutRepositoryImpl::new(BookRepositoryImpl::new());
    let mut books = Vec::new();
    for k in 0..4 {
        books.push(
            ledger
                .register_book(CreateBook {
                    title: format!("book {k}"),
                    author: "A".to_string(),
                    isbn: "1".to_string(),
                    description: "D".to_string(),
                })
                .unwrap(),
        );
    }
    let mut seed: u64 = 0x2545_f491_4f6c_dd1d;
    let mut next = move || {
        seed ^= seed << 13;
        seed ^= seed >> 7;
        seed ^= seed << 17;
        seed
    };
    for step in 0..400i64 {
        let b = books[(next() % 4) as usize];
        let u = (next() % 3) as u128;
        if next() % 2 == 0 {
            let _ = lend(&mut ledger, b, u, step);
        } else if let Some(live) = ledger.find_unreturned_by_book_id(b) {
            let who = if next() % 4 == 0 { u } else { live.borrower_id.value };
            let _ = give_back(&mut ledger, live.checkout_id, b, who, step);
        }
        let all = ledger.find_unreturned_all();
        for (i, x) in all.iter().enumerate() {
            for y in all.iter().skip(i + 1) {
                assert_ne!(x.book_id, y.book_id);
            }
        }
    }
}

#[test]
fn history_of_unknown_book_is_empty() {
    let (mut ledger, b) = ledger_with_book();
    let id = lend(&mut ledger, b, 1, 10).unwrap();
    give_back(&mut ledger, id, b, 1, 20).unwrap();
    let unknown = BookId { value: b.value + 100 };
    assert!(ledger.find_history_by_book_id(unknown).is_empty());
    assert!(ledger.find_history_with_book(unknown).is_empty());
}

#[test]
fn history_with_book_carries_book_details() {
    let (mut ledger, b) = ledger_with_book();
    let first = lend(&mut ledger, b, 1, 10).unwrap();
    give_back(&mut ledger, first, b, 1, 20).unwrap();
    let live = lend(&mut ledger, b, 2, 30).unwrap();
    let history = ledger.find_history_with_book(b);
    assert_eq!(history.len(), 2);
    assert!(matches!(history[0].record, CheckoutRecord::Active(a) if a.checkout_id == live));
    assert!(matches!(history[1].record, CheckoutRecord::Archived(a) if a.checkout_id == first));
    for entry in &history {
        assert_eq!(entry.book.book_id, b);
        assert_eq!(entry.book.title, "The Rust Programming Language");
        assert_eq!(entry.book.author, "Steve Klabnik and Carol Nichols");
        assert_eq!(entry.book.isbn, "9781593278281");
    }
}
