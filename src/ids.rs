//! Identifiers of books, users and loans.

use vstd::prelude::*;

verus! {

/// Identifies a book of the catalog.
#[derive(Clone, Copy, Debug, PartialEq, Eq, Structural, Hash)]
pub struct BookId {
    pub value: u128,
}

/// Identifies a user: a borrower or the one who returns a book.
#[derive(Clone, Copy, Debug, PartialEq, Eq, Structural, Hash)]
pub struct UserId {
    pub value: u128,
}

/// Identifies one loan, from check-out to return and in the archive after.
#[derive(Clone, Copy, Debug, PartialEq, Eq, Structural, Hash)]
pub struct CheckoutId {
    pub value: u128,
}

} // verus!
