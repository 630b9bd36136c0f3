//! The rows that the ledger keeps, and its error taxonomy.

use vstd::prelude::*;
use crate::ids::{BookId, CheckoutId, UserId};

verus! {

/// An outstanding loan: the book is lent to `borrower_id` since `checked_out_at`.
/// Timestamps are microseconds since the Unix epoch.
#[derive(Clone, Copy, Debug, PartialEq, Eq, Structural)]
pub struct ActiveCheckout {
    pub checkout_id: CheckoutId,
    pub book_id: BookId,
    pub borrower_id: UserId,
    pub checked_out_at: i64,
}

/// The immutable record of a completed loan.
#[derive(Clone, Copy, Debug, PartialEq, Eq, Structural)]
pub struct ArchivedCheckout {
    pub checkout_id: CheckoutId,
    pub book_id: BookId,
    pub borrower_id: UserId,
    pub checked_out_at: i64,
    pub returned_at: i64,
}

/// One entry of a book's loan history: the live loan, or a completed one.
#[derive(Clone, Copy, Debug, PartialEq, Eq, Structural)]
pub enum CheckoutRecord {
    Active(ActiveCheckout),
    Archived(ArchivedCheckout),
}

/// Why a ledger operation did not take place.
#[derive(Clone, Copy, Debug, PartialEq, Eq, Structural)]
pub enum LedgerError {
    /// The book, or the loan to return, does not exist.
    NotFound,
    /// A competing state won: the book is already lent, the request names a
    /// loan that is no longer live, or the store aborted a racing transaction.
    Conflict,
    /// The store failed for a reason unrelated to the ledger's rules.
    StorageFailure,
}

impl ActiveCheckout {
    /// The archived form of this loan, returned at `returned_at`.
    pub open spec fn archived_at(self, returned_at: i64) -> ArchivedCheckout {
        ArchivedCheckout {
            checkout_id: self.checkout_id,
            book_id: self.book_id,
            borrower_id: self.borrower_id,
            checked_out_at: self.checked_out_at,
            returned_at,
        }
    }

    /// Moves this loan to the archive, closed at `returned_at`.
    pub fn archive(&self, returned_at: i64) -> (r: ArchivedCheckout)
        ensures
            r == self.archived_at(returned_at),
    {
        ArchivedCheckout {
            checkout_id: self.checkout_id,
            book_id: self.book_id,
            borrower_id: self.borrower_id,
            checked_out_at: self.checked_out_at,
            returned_at,
        }
    }
}

/// A book of the catalog.
pub struct Book {
    pub id: BookId,
    pub title: String,
    pub author: String,
    pub isbn: String,
    pub description: String,
}

impl Book {
    /// A copy of this book.
    pub fn duplicate(&self) -> (r: Book)
        ensures
            r == *self,
    {
        Book {
            id: self.id,
            title: self.title.clone(),
            author: self.author.clone(),
            isbn: self.isbn.clone(),
            description: self.description.clone(),
        }
    }
}

/// The data of a book to register.
pub struct CreateBook {
    pub title: String,
    pub author: String,
    pub isbn: String,
    pub description: String,
}

} // verus!

verus! {

/// A request to lend `book_id` to `checked_out_by` at `checked_out_at`.
#[derive(Clone, Copy, Debug, PartialEq, Eq, Structural)]
pub struct CreateCheckout {
    pub book_id: BookId,
    pub checked_out_by: UserId,
    pub checked_out_at: i64,
}

/// A request to close the loan `checkout_id` of `book_id`, returned by
/// `returned_by` at `returned_at`.
#[derive(Clone, Copy, Debug, PartialEq, Eq, Structural)]
pub struct UpdateReturned {
    pub checkout_id: CheckoutId,
    pub book_id: BookId,
    pub returned_by: UserId,
    pub returned_at: i64,
}

} // verus!

verus! {

/// What a user may do.
#[derive(Clone, Copy, Debug, PartialEq, Eq, Structural)]
pub enum Role {
    Admin,
    User,
}

/// A user account.
pub struct User {
    pub id: UserId,
    pub name: String,
    pub email: String,
    pub role: Role,
}

/// The data of a user account to create.
pub struct CreateUser {
    pub name: String,
    pub email: String,
    pub password: String,
}

/// A change of a user's password.
pub struct UpdateUserPassword {
    pub user_id: UserId,
    pub current_password: String,
    pub new_password: String,
}

/// A change of a user's role.
#[derive(Clone, Copy, Debug, PartialEq, Eq, Structural)]
pub struct UpdateUserRole {
    pub user_id: UserId,
    pub role: Role,
}

} // verus!

verus! {

/// A catalog row as the store holds it.
pub struct BookRow {
    pub book_id: BookId,
    pub title: String,
    pub author: String,
    pub isbn: String,
    pub description: String,
}

impl From<BookRow> for Book {
    fn from(row: BookRow) -> (r: Book) {
        Book {
            id: row.book_id,
            title: row.title,
            author: row.author,
            isbn: row.isbn,
            description: row.description,
        }
    }
}

impl vstd::std_specs::convert::FromSpecImpl<BookRow> for Book {
    open spec fn obeys_from_spec() -> bool {
        true
    }

    open spec fn from_spec(row: BookRow) -> Book {
        Book {
            id: row.book_id,
            title: row.title,
            author: row.author,
            isbn: row.isbn,
            description: row.description,
        }
    }
}

/// What a loan record shows of its book.
pub struct CheckoutBook {
    pub book_id: BookId,
    pub title: String,
    pub author: String,
    pub isbn: String,
}

impl Book {
    /// The part of this book that loan records show.
    pub open spec fn summary(self) -> CheckoutBook {
        CheckoutBook { book_id: self.id, title: self.title, author: self.author, isbn: self.isbn }
    }

    /// The part of this book that loan records show.
    pub fn checkout_book(&self) -> (r: CheckoutBook)
        ensures
            r == self.summary(),
    {
        CheckoutBook {
            book_id: self.id,
            title: self.title.clone(),
            author: self.author.clone(),
            isbn: self.isbn.clone(),
        }
    }
}

/// A loan record together with the book it lends.
pub struct Checkout {
    pub record: CheckoutRecord,
    pub book: CheckoutBook,
}

} // verus!
