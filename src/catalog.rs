//! The book catalog: the ledger asks it only whether a book exists.

use vstd::prelude::*;
use crate::ids::BookId;
use crate::model::{Book, CreateBook, LedgerError};

verus! {

/// The books of the library, in the order they were registered.
pub struct BookRepositoryImpl {
    books: Vec<Book>,
    next_id: u128,
}

/// Whether some book of `books` has identifier `id`.
pub open spec fn has_book(books: Seq<Book>, id: BookId) -> bool {
    exists|i: int| 0 <= i < books.len() && #[trigger] books[i].id == id
}

impl BookRepositoryImpl {
    /// The registered books, oldest first.
    pub closed spec fn books(&self) -> Seq<Book> {
        self.books@
    }

    /// The identifier that the next registered book receives.
    pub closed spec fn next_id(&self) -> nat {
        self.next_id as nat
    }

    /// Identifiers are distinct and all below the next one to hand out.
    pub closed spec fn wf(&self) -> bool {
        &&& forall|i: int| 0 <= i < self.books@.len() ==> #[trigger] self.books@[i].id.value < self.next_id
        &&& forall|i: int, j: int|
            0 <= i < j < self.books@.len() ==> #[trigger] self.books@[i].id != #[trigger] self.books@[j].id
    }

    /// An empty catalog.
    pub fn new() -> (r: BookRepositoryImpl)
        ensures
            r.wf(),
            r.books() == Seq::<Book>::empty(),
            r.next_id() == 0,
    {
        BookRepositoryImpl { books: Vec::new(), next_id: 0 }
    }

    /// Registers a book under a fresh identifier. Fails with `StorageFailure`
    /// only when the identifier space is exhausted.
    pub fn create(&mut self, event: CreateBook) -> (r: Result<BookId, LedgerError>)
        requires
            old(self).wf(),
        ensures
            final(self).wf(),
            r is Ok ==> !has_book(old(self).books(), r->Ok_0),
            old(self).next_id() < u128::MAX ==> {
                &&& r == Ok::<BookId, LedgerError>(BookId { value: old(self).next_id() as u128 })
                &&& final(self).next_id() == old(self).next_id() + 1
                &&& final(self).books() == old(self).books().push(Book {
                    id: BookId { value: old(self).next_id() as u128 },
                    title: event.title,
                    author: event.author,
                    isbn: event.isbn,
                    description: event.description,
                })
            },
            old(self).next_id() >= u128::MAX ==> {
                &&& r == Err::<BookId, LedgerError>(LedgerError::StorageFailure)
                &&& *final(self) == *old(self)
            },
    {
        if self.next_id == u128::MAX {
            return Err(LedgerError::StorageFailure);
        }
        let id = BookId { value: self.next_id };
        assert forall|i: int| 0 <= i < self.books@.len() implies #[trigger] self.books@[i].id != id by {
            assert(self.books@[i].id.value < self.next_id);
        }
        let CreateBook { title, author, isbn, description } = event;
        self.books.push(Book { id, title, author, isbn, description });
        self.next_id = self.next_id + 1;
        assert forall|i: int, j: int| 0 <= i < j < self.books@.len() implies
            #[trigger] self.books@[i].id != #[trigger] self.books@[j].id by {
            if j == self.books@.len() - 1 {
                assert(self.books@[i] == old(self).books@[i]);
                assert(old(self).books@[i].id.value < old(self).next_id);
            } else {
                assert(self.books@[i] == old(self).books@[i]);
                assert(self.books@[j] == old(self).books@[j]);
            }
        }
        Ok(id)
    }

    /// Whether a book with identifier `id` is registered.
    pub fn contains(&self, id: BookId) -> (r: bool)
        ensures
            r == has_book(self.books(), id),
    {
        let mut i: usize = 0;
        while i < self.books.len()
            invariant
                0 <= i <= self.books@.len(),
                forall|k: int| 0 <= k < i ==> self.books@[k].id != id,
            decreases self.books@.len() - i,
        {
            if self.books[i].id == id {
                return true;
            }
            i = i + 1;
        }
        false
    }

    /// The book with identifier `id`, if it is registered.
    pub fn find_by_id(&self, id: BookId) -> (r: Option<Book>)
        requires
            self.wf(),
        ensures
            has_book(self.books(), id) <==> r.is_some(),
            forall|i: int| 0 <= i < self.books().len() && #[trigger] self.books()[i].id == id
                ==> r == Some(self.books()[i]),
    {
        let mut i: usize = 0;
        while i < self.books.len()
            invariant
                0 <= i <= self.books@.len(),
                forall|k: int| 0 <= k < i ==> self.books@[k].id != id,
                self.wf(),
            decreases self.books@.len() - i,
        {
            if self.books[i].id == id {
                assert forall|k: int| 0 <= k < self.books@.len() && #[trigger] self.books@[k].id == id
                    implies k == i by {
                    if k < i {
                    } else if k > i {
                        assert(self.books@[i as int].id != self.books@[k].id);
                    }
                }
                return Some(self.books[i].duplicate());
            }
            i = i + 1;
        }
        None
    }

    /// All registered books, the most recently registered first.
    pub fn find_all(&self) -> (r: Vec<Book>)
        ensures
            r@ == self.books().reverse(),
    {
        let mut out: Vec<Book> = Vec::new();
        let n: usize = self.books.len();
        let mut i: usize = n;
        while i > 0
            invariant
                n == self.books@.len(),
                0 <= i <= n,
                out@ == self.books@.subrange(i as int, n as int).reverse(),
            decreases i,
        {
            i = i - 1;
            out.push(self.books[i].duplicate());
            assert(out@ =~= self.books@.subrange(i as int, n as int).reverse());
        }
        assert(self.books@.subrange(0, n as int) =~= self.books@);
        out
    }
}

} // verus!
