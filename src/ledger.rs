//! The checkout ledger: a table of live loans, at most one per book, and an
//! append-only archive of completed loans. Each write is one atomic step that
//! re-reads the book's state and decides on it before it changes anything.

use vstd::prelude::*;
use crate::catalog::{has_book, BookRepositoryImpl};
use crate::guard::{check_out_precondition, check_out_verdict, return_precondition, return_verdict};
use crate::ids::{BookId, CheckoutId, UserId};
use crate::history::{
    assemble_history, by_user, insert_newest_first, newest_first, of_book,
    ordered_history,
};
use crate::model::{
    ActiveCheckout, ArchivedCheckout, Book, Checkout, CheckoutRecord, CreateBook, CreateCheckout, LedgerError,
    UpdateReturned,
};

verus! {

/// The content of the ledger and of the catalog it consults.
pub struct LedgerState {
    /// The books of the catalog.
    pub books: Seq<Book>,
    /// The live loans.
    pub active: Seq<ActiveCheckout>,
    /// The completed loans, in the order they were returned.
    pub archived: Seq<ArchivedCheckout>,
    /// The identifier that the next loan receives.
    pub next_id: nat,
}

impl LedgerState {
    /// Whether book `b` is in the catalog.
    pub open spec fn book_exists(self, b: BookId) -> bool {
        has_book(self.books, b)
    }

    /// Whether book `b` is lent out.
    pub open spec fn is_lent(self, b: BookId) -> bool {
        exists|i: int| 0 <= i < self.active.len() && #[trigger] self.active[i].book_id == b
    }

    /// The row of the live loan of `b`, when it is lent out.
    pub open spec fn active_index(self, b: BookId) -> int {
        choose|i: int| 0 <= i < self.active.len() && #[trigger] self.active[i].book_id == b
    }

    /// The live loan of book `b`.
    pub open spec fn active_of(self, b: BookId) -> Option<ActiveCheckout> {
        if self.is_lent(b) {
            Some(self.active[self.active_index(b)])
        } else {
            None
        }
    }

    /// The archived loans of book `b`, in the order they were returned.
    pub open spec fn archived_of(self, b: BookId) -> Seq<ArchivedCheckout> {
        self.archived.filter(of_book(b))
    }

    /// The live loans of user `u`, in table order.
    pub open spec fn lent_to(self, u: UserId) -> Seq<ActiveCheckout> {
        self.active.filter(by_user(u))
    }

    /// No two live loans are of the same book.
    pub open spec fn one_loan_per_book(self) -> bool {
        forall|i: int, j: int|
            0 <= i < j < self.active.len() ==> #[trigger] self.active[i].book_id
                != #[trigger] self.active[j].book_id
    }

    /// Every loan, live or archived, has its own identifier, below `next_id`.
    pub open spec fn ids_unique(self) -> bool {
        &&& forall|i: int| 0 <= i < self.active.len() ==> #[trigger] self.active[i].checkout_id.value < self.next_id
        &&& forall|i: int| 0 <= i < self.archived.len() ==> #[trigger] self.archived[i].checkout_id.value < self.next_id
        &&& forall|i: int, j: int|
            0 <= i < j < self.active.len() ==> #[trigger] self.active[i].checkout_id
                != #[trigger] self.active[j].checkout_id
        &&& forall|i: int, j: int|
            0 <= i < j < self.archived.len() ==> #[trigger] self.archived[i].checkout_id
                != #[trigger] self.archived[j].checkout_id
        &&& forall|i: int, j: int|
            0 <= i < self.active.len() && 0 <= j < self.archived.len() ==> #[trigger] self.active[i].checkout_id
                != #[trigger] self.archived[j].checkout_id
    }

    /// The ledger's invariant.
    pub open spec fn wf(self) -> bool {
        &&& self.one_loan_per_book()
        &&& self.ids_unique()
        &&& forall|i: int| 0 <= i < self.active.len() ==> self.book_exists(#[trigger] self.active[i].book_id)
        &&& forall|i: int| 0 <= i < self.archived.len() ==> self.book_exists(#[trigger] self.archived[i].book_id)
        &&& forall|i: int| 0 <= i < self.archived.len()
            ==> #[trigger] self.archived[i].checked_out_at <= self.archived[i].returned_at
    }
}

/// What a check-out of `b` by `u` at `t` does: the new state and the result.
/// The loan receives the identifier `next_id`; only when no identifier is
/// left does the step fail with `StorageFailure`.
pub open spec fn check_out_step(s: LedgerState, b: BookId, u: UserId, t: i64) -> (
    LedgerState,
    Result<CheckoutId, LedgerError>,
) {
    match check_out_verdict(s.book_exists(b), s.active_of(b)) {
        Err(e) => (s, Err(e)),
        Ok(_) => if s.next_id >= u128::MAX {
            (s, Err(LedgerError::StorageFailure))
        } else {
            let id = CheckoutId { value: s.next_id as u128 };
            (
                LedgerState {
                    active: s.active.push(
                        ActiveCheckout { checkout_id: id, book_id: b, borrower_id: u, checked_out_at: t },
                    ),
                    next_id: s.next_id + 1,
                    ..s
                },
                Ok(id),
            )
        },
    }
}

/// What a return of loan `id` of book `b` by `u` at `t` does: the live loan
/// leaves the table and its archived form is appended to the archive.
pub open spec fn return_step(s: LedgerState, id: CheckoutId, b: BookId, u: UserId, t: i64) -> (
    LedgerState,
    Result<(), LedgerError>,
) {
    match return_verdict(s.active_of(b), id, u, t) {
        Err(e) => (s, Err(e)),
        Ok(a) => (
            LedgerState {
                active: s.active.remove(s.active_index(b)),
                archived: s.archived.push(a.archived_at(t)),
                ..s
            },
            Ok(()),
        ),
    }
}

/// A check-out keeps the ledger's invariant; in particular a book never has
/// two live loans.
pub proof fn lemma_check_out_keeps_invariant(pre: LedgerState, b: BookId, u: UserId, t: i64)
    requires
        pre.wf(),
    ensures
        check_out_step(pre, b, u, t).0.wf(),
{
    let post = check_out_step(pre, b, u, t).0;
    if check_out_verdict(pre.book_exists(b), pre.active_of(b)) is Ok && pre.next_id < u128::MAX {
        assert(!pre.is_lent(b));
        let n = pre.active.len() as int;
        assert forall|i: int, j: int| 0 <= i < j < post.active.len() implies
            #[trigger] post.active[i].book_id != #[trigger] post.active[j].book_id by {
            assert(post.active[i] == pre.active[i]);
            if j < n {
                assert(post.active[j] == pre.active[j]);
            }
        }
        assert forall|i: int, j: int| 0 <= i < j < post.active.len() implies
            #[trigger] post.active[i].checkout_id != #[trigger] post.active[j].checkout_id by {
            assert(post.active[i] == pre.active[i]);
            assert(pre.active[i].checkout_id.value < pre.next_id);
            if j < n {
                assert(post.active[j] == pre.active[j]);
            }
        }
        assert forall|i: int, j: int| 0 <= i < post.active.len() && 0 <= j < post.archived.len() implies
            #[trigger] post.active[i].checkout_id != #[trigger] post.archived[j].checkout_id by {
            assert(pre.archived[j].checkout_id.value < pre.next_id);
            if i < n {
                assert(post.active[i] == pre.active[i]);
            }
        }
        assert forall|i: int| 0 <= i < post.active.len() implies
            #[trigger] post.active[i].checkout_id.value < post.next_id by {
            if i < n {
                assert(post.active[i] == pre.active[i]);
            }
        }
        assert forall|i: int| 0 <= i < post.active.len() implies post.book_exists(
            #[trigger] post.active[i].book_id,
        ) by {
            if i < n {
                assert(post.active[i] == pre.active[i]);
            }
        }
    }
}

/// A return keeps the ledger's invariant.
pub proof fn lemma_return_keeps_invariant(pre: LedgerState, id: CheckoutId, b: BookId, u: UserId, t: i64)
    requires
        pre.wf(),
    ensures
        return_step(pre, id, b, u, t).0.wf(),
{
    let post = return_step(pre, id, b, u, t).0;
    if return_verdict(pre.active_of(b), id, u, t) is Ok {
        let k = pre.active_index(b);
        assert(0 <= k < pre.active.len() && pre.active[k].book_id == b);
        let n = pre.archived.len() as int;
        assert forall|i: int| 0 <= i < post.active.len() implies #[trigger] post.active[i] == pre.active[
            if i < k {
                i
            } else {
                i + 1
            }
        ] by {}
        assert forall|i: int, j: int| 0 <= i < j < post.active.len() implies
            #[trigger] post.active[i].book_id != #[trigger] post.active[j].book_id by {
            let pi = if i < k { i } else { i + 1 };
            let pj = if j < k { j } else { j + 1 };
            assert(post.active[i] == pre.active[pi]);
            assert(post.active[j] == pre.active[pj]);
            assert(pre.active[pi].book_id != pre.active[pj].book_id);
        }
        assert forall|i: int, j: int| 0 <= i < j < post.active.len() implies
            #[trigger] post.active[i].checkout_id != #[trigger] post.active[j].checkout_id by {
            let pi = if i < k { i } else { i + 1 };
            let pj = if j < k { j } else { j + 1 };
            assert(post.active[i] == pre.active[pi]);
            assert(post.active[j] == pre.active[pj]);
            assert(pre.active[pi].checkout_id != pre.active[pj].checkout_id);
        }
        assert forall|i: int| 0 <= i < post.active.len() implies
            #[trigger] post.active[i].checkout_id.value < post.next_id by {
            let pi = if i < k { i } else { i + 1 };
            assert(post.active[i] == pre.active[pi]);
        }
        assert forall|i: int| 0 <= i < post.active.len() implies post.book_exists(
            #[trigger] post.active[i].book_id,
        ) by {
            let pi = if i < k { i } else { i + 1 };
            assert(post.active[i] == pre.active[pi]);
            assert(pre.book_exists(pre.active[pi].book_id));
        }
        assert forall|i: int| 0 <= i < post.archived.len() implies
            #[trigger] post.archived[i].checkout_id.value < post.next_id by {
            if i < n {
                assert(post.archived[i] == pre.archived[i]);
            } else {
                assert(pre.active[k].checkout_id.value < pre.next_id);
            }
        }
        assert forall|i: int| 0 <= i < post.archived.len() implies
            #[trigger] post.archived[i].checked_out_at <= post.archived[i].returned_at by {
            if i < n {
                assert(post.archived[i] == pre.archived[i]);
            }
        }
        assert forall|i: int| 0 <= i < post.archived.len() implies post.book_exists(
            #[trigger] post.archived[i].book_id,
        ) by {
            if i < n {
                assert(post.archived[i] == pre.archived[i]);
            } else {
                assert(pre.book_exists(pre.active[k].book_id));
            }
        }
        assert forall|i: int, j: int| 0 <= i < j < post.archived.len() implies
            #[trigger] post.archived[i].checkout_id != #[trigger] post.archived[j].checkout_id by {
            assert(post.archived[i] == pre.archived[i]);
            if j < n {
                assert(post.archived[j] == pre.archived[j]);
            } else {
                assert(pre.active[k].checkout_id != pre.archived[i].checkout_id);
            }
        }
        assert forall|i: int, j: int| 0 <= i < post.active.len() && 0 <= j < post.archived.len() implies
            #[trigger] post.active[i].checkout_id != #[trigger] post.archived[j].checkout_id by {
            let pi = if i < k { i } else { i + 1 };
            assert(post.active[i] == pre.active[pi]);
            if j < n {
                assert(post.archived[j] == pre.archived[j]);
                assert(pre.active[pi].checkout_id != pre.archived[j].checkout_id);
            } else {
                assert(pre.active[pi].checkout_id != pre.active[k].checkout_id);
            }
        }
    }
}

/// `h` is the history of book `b` in `s`, with `done` as its archived part:
/// the live loan first, if any, then every archived loan of the book, the
/// latest check-out first.
pub open spec fn history_with(
    s: LedgerState,
    b: BookId,
    h: Seq<CheckoutRecord>,
    done: Seq<ArchivedCheckout>,
) -> bool {
    ordered_history(s.active_of(b), s.archived_of(b), h, done)
}

/// The loan records of `c`, without their books.
pub open spec fn records_of(c: Seq<Checkout>) -> Seq<CheckoutRecord> {
    c.map_values(|x: Checkout| x.record)
}

/// `h` is a history of book `b` in `s`. Loans checked out at the same instant
/// may stand in either order.
pub open spec fn is_history(s: LedgerState, b: BookId, h: Seq<CheckoutRecord>) -> bool {
    exists|done: Seq<ArchivedCheckout>| #[trigger] history_with(s, b, h, done)
}

/// The ledger, together with the catalog it consults within each operation.
pub struct CheckoutRepositoryImpl {
    catalog: BookRepositoryImpl,
    active: Vec<ActiveCheckout>,
    archived: Vec<ArchivedCheckout>,
    next_id: u128,
}

impl View for CheckoutRepositoryImpl {
    type V = LedgerState;

    closed spec fn view(&self) -> LedgerState {
        LedgerState {
            books: self.catalog.books(),
            active: self.active@,
            archived: self.archived@,
            next_id: self.next_id as nat,
        }
    }
}

impl CheckoutRepositoryImpl {
    /// The ledger's invariant, and the catalog's.
    pub closed spec fn wf(&self) -> bool {
        &&& self@.wf()
        &&& self.catalog.wf()
        &&& self.next_id as int == self.active@.len() + self.archived@.len()
    }

    /// The ledger's invariant holds of its content: among others, no book
    /// has two live loans and no two loans share an identifier. Every loan
    /// ever made is still in one of the two tables, so identifiers never run
    /// out.
    pub proof fn lemma_view_wf(&self)
        requires
            self.wf(),
        ensures
            self@.wf(),
            self@.next_id < u128::MAX,
    {
        assert(self.active.len() as int == self.active@.len());
        assert(self.archived.len() as int == self.archived@.len());
    }

    /// The catalog the ledger consults.
    pub closed spec fn catalog_state(&self) -> BookRepositoryImpl {
        self.catalog
    }

    /// A ledger with no loans over `catalog`.
    pub fn new(catalog: BookRepositoryImpl) -> (r: CheckoutRepositoryImpl)
        requires
            catalog.wf(),
        ensures
            r.wf(),
            r@.wf(),
            r.catalog_state() == catalog,
            r@.books == catalog.books(),
            r@.active == Seq::<ActiveCheckout>::empty(),
            r@.archived == Seq::<ArchivedCheckout>::empty(),
    {
        CheckoutRepositoryImpl { catalog, active: Vec::new(), archived: Vec::new(), next_id: 0 }
    }

    /// The catalog the ledger consults.
    pub fn catalog(&self) -> (r: &BookRepositoryImpl)
        ensures
            *r == self.catalog_state(),
            r.books() == self@.books,
    {
        &self.catalog
    }

    /// Registers a book in the catalog; the loans stay as they are.
    pub fn register_book(&mut self, event: CreateBook) -> (r: Result<BookId, LedgerError>)
        requires
            old(self).wf(),
        ensures
            final(self).wf(),
            final(self)@.wf(),
            final(self)@.active == old(self)@.active,
            final(self)@.archived == old(self)@.archived,
            final(self)@.next_id == old(self)@.next_id,
            r is Ok <==> old(self).catalog_state().next_id() < u128::MAX,
            match r {
                Ok(id) => final(self)@.books == old(self)@.books.push(Book {
                    id,
                    title: event.title,
                    author: event.author,
                    isbn: event.isbn,
                    description: event.description,
                }) && !old(self)@.book_exists(id),
                Err(e) => e == LedgerError::StorageFailure && final(self)@.books == old(self)@.books,
            },
    {
        let ghost pre = self@;
        let r = self.catalog.create(event);
        assert forall|i: int| 0 <= i < self@.active.len() implies self@.book_exists(
            #[trigger] self@.active[i].book_id,
        ) by {
            let b = pre.active[i].book_id;
            assert(pre.book_exists(b));
            let k = choose|k: int| 0 <= k < pre.books.len() && #[trigger] pre.books[k].id == b;
            assert(self@.books[k] == pre.books[k]);
        }
        assert forall|i: int| 0 <= i < self@.archived.len() implies self@.book_exists(
            #[trigger] self@.archived[i].book_id,
        ) by {
            let b = pre.archived[i].book_id;
            assert(pre.book_exists(b));
            let k = choose|k: int| 0 <= k < pre.books.len() && #[trigger] pre.books[k].id == b;
            assert(self@.books[k] == pre.books[k]);
        }
        assert(self@.active == pre.active);
        assert(self@.archived == pre.archived);
        assert(self@.next_id == pre.next_id);
        r
    }

    /// Finds the row of the live loan of `b`, if any.
    fn find_active(&self, b: BookId) -> (r: Option<usize>)
        requires
            self@.one_loan_per_book(),
        ensures
            match r {
                Some(k) => self@.is_lent(b) && k == self@.active_index(b) && k < self@.active.len(),
                None => !self@.is_lent(b),
            },
    {
        let mut i: usize = 0;
        while i < self.active.len()
            invariant
                0 <= i <= self@.active.len(),
                self@.active == self.active@,
                self@.one_loan_per_book(),
                forall|k: int| 0 <= k < i ==> self@.active[k].book_id != b,
            decreases self@.active.len() - i,
        {
            if self.active[i].book_id == b {
                let ghost s = self@;
                assert(s.active[i as int].book_id == b);
                assert(s.is_lent(b));
                let ghost c = s.active_index(b);
                assert(c == i) by {
                    if c < i {
                    } else if c > i {
                        assert(s.active[i as int].book_id != s.active[c].book_id);
                    }
                }
                return Some(i);
            }
            i = i + 1;
        }
        None
    }

    /// The live loan of book `b`, if it is lent out.
    pub fn find_unreturned_by_book_id(&self, b: BookId) -> (r: Option<ActiveCheckout>)
        requires
            self.wf(),
        ensures
            r == self@.active_of(b),
    {
        match self.find_active(b) {
            Some(k) => Some(self.active[k]),
            None => None,
        }
    }

    /// Lends a book. Inside one atomic step it re-reads whether the book exists
    /// and whether it is lent, fails with `NotFound` or `Conflict` on those, and
    /// otherwise records a live loan under a fresh identifier and returns it.
    pub fn create(&mut self, event: CreateCheckout) -> (r: Result<CheckoutId, LedgerError>)
        requires
            old(self).wf(),
        ensures
            final(self).wf(),
            final(self)@.wf(),
            final(self)@.next_id < u128::MAX,
            old(self)@.next_id < u128::MAX,
            final(self).catalog_state() == old(self).catalog_state(),
            (final(self)@, r) == check_out_step(
                old(self)@,
                event.book_id,
                event.checked_out_by,
                event.checked_out_at,
            ),
    {
        proof {
            self.lemma_view_wf();
        }
        let b = event.book_id;
        let exists_now = self.catalog.contains(b);
        let live = self.find_unreturned_by_book_id(b);
        check_out_precondition(exists_now, live)?;
        if self.next_id == u128::MAX {
            return Err(LedgerError::StorageFailure);
        }
        let id = CheckoutId { value: self.next_id };
        let ghost pre = self@;
        self.active.push(
            ActiveCheckout {
                checkout_id: id,
                book_id: b,
                borrower_id: event.checked_out_by,
                checked_out_at: event.checked_out_at,
            },
        );
        self.next_id = self.next_id + 1;
        proof {
            lemma_check_out_keeps_invariant(pre, b, event.checked_out_by, event.checked_out_at);
            self.lemma_view_wf();
        }
        Ok(id)
    }

    /// Closes a loan. Inside one atomic step it re-reads the live loan of the
    /// book: with none it fails with `NotFound`; when that loan is not the one
    /// named, was made by another user, or began after `returned_at`, it fails
    /// with `Conflict`. Otherwise the loan leaves the live table and its
    /// archived form is appended to the archive, both in the same step.
    pub fn update_returned(&mut self, event: UpdateReturned) -> (r: Result<(), LedgerError>)
        requires
            old(self).wf(),
        ensures
            final(self).wf(),
            final(self)@.wf(),
            final(self)@.next_id < u128::MAX,
            final(self).catalog_state() == old(self).catalog_state(),
            (final(self)@, r) == return_step(
                old(self)@,
                event.checkout_id,
                event.book_id,
                event.returned_by,
                event.returned_at,
            ),
    {
        proof {
            self.lemma_view_wf();
        }
        let b = event.book_id;
        let found = self.find_active(b);
        let live = match found {
            Some(k) => Some(self.active[k]),
            None => None,
        };
        let a = return_precondition(live, event.checkout_id, event.returned_by, event.returned_at)?;
        let k = match found {
            Some(k) => k,
            None => {
                return Err(LedgerError::NotFound);
            },
        };
        let ghost pre = self@;
        let record = a.archive(event.returned_at);
        self.archived.push(record);
        self.active.remove(k);
        proof {
            lemma_return_keeps_invariant(pre, event.checkout_id, b, event.returned_by, event.returned_at);
        }
        Ok(())
    }

    /// The history of book `b`: its live loan, if any, then its archived loans,
    /// the latest check-out first. A book outside the catalog has none.
    pub fn find_history_by_book_id(&self, b: BookId) -> (r: Vec<CheckoutRecord>)
        requires
            self.wf(),
        ensures
            is_history(self@, b, r@),
            !self@.book_exists(b) ==> r@.len() == 0,
    {
        let live = self.find_unreturned_by_book_id(b);
        let mut mine: Vec<ArchivedCheckout> = Vec::new();
        let n: usize = self.archived.len();
        let mut i: usize = 0;
        proof {
            self.archived@.take(0).lemma_filter_len(of_book(b));
            assert(self.archived@.take(0).filter(of_book(b)) =~= mine@);
        }
        while i < n
            invariant
                n == self.archived@.len(),
                0 <= i <= n,
                mine@ == self.archived@.take(i as int).filter(of_book(b)),
                self@.wf(),
                !self@.book_exists(b) ==> mine@.len() == 0,
            decreases n - i,
        {
            let x = self.archived[i];
            proof {
                assert(self.archived@.take(i + 1) =~= self.archived@.take(i as int).push(x));
                self.archived@.take(i as int).lemma_filter_push(x, of_book(b));
            }
            if x.book_id == b {
                assert(self@.book_exists(self@.archived[i as int].book_id));
                mine.push(x);
            }
            i = i + 1;
        }
        assert(self.archived@.take(n as int) =~= self.archived@);
        let out = assemble_history(live, mine);
        proof {
            let done = choose|done: Seq<ArchivedCheckout>| #[trigger] ordered_history(live, mine@, out@, done);
            assert(history_with(self@, b, out@, done));
            if !self@.book_exists(b) {
                let s = self@;
                assert(!s.is_lent(b)) by {
                    if s.is_lent(b) {
                        let k = choose|k: int| 0 <= k < s.active.len() && #[trigger] s.active[k].book_id == b;
                        assert(s.book_exists(s.active[k].book_id));
                    }
                }
                broadcast use vstd::seq_lib::group_to_multiset_ensures;
                assert(done.len() == done.to_multiset().len());
                assert(s.archived_of(b).len() == s.archived_of(b).to_multiset().len());
            }
        }
        out
    }

    /// The history of book `b`, as `find_history_by_book_id` gives it, with
    /// the book's identifier, title, author and ISBN on every entry.
    pub fn find_history_with_book(&self, b: BookId) -> (r: Vec<Checkout>)
        requires
            self.wf(),
        ensures
            is_history(self@, b, records_of(r@)),
            forall|i: int, k: int|
                0 <= i < r@.len() && 0 <= k < self@.books.len() && #[trigger] self@.books[k].id == b
                    ==> #[trigger] r@[i].book == self@.books[k].summary(),
    {
        let history = self.find_history_by_book_id(b);
        let book = match self.catalog.find_by_id(b) {
            Some(book) => book,
            None => {
                let out: Vec<Checkout> = Vec::new();
                assert(records_of(out@) =~= history@);
                return out;
            },
        };
        let mut out: Vec<Checkout> = Vec::new();
        let mut j: usize = 0;
        while j < history.len()
            invariant
                0 <= j <= history@.len(),
                records_of(out@) == history@.take(j as int),
                out@.len() == j,
                forall|i: int| 0 <= i < out@.len() ==> #[trigger] out@[i].book == book.summary(),
            decreases history@.len() - j,
        {
            out.push(Checkout { record: history[j], book: book.checkout_book() });
            assert(records_of(out@) =~= history@.take(j + 1));
            j = j + 1;
        }
        assert(history@.take(history@.len() as int) =~= history@);
        out
    }

    /// All live loans, the latest check-out first.
    pub fn find_unreturned_all(&self) -> (r: Vec<ActiveCheckout>)
        requires
            self.wf(),
        ensures
            r@.to_multiset() == self@.active.to_multiset(),
            newest_first(r@),
    {
        let mut out: Vec<ActiveCheckout> = Vec::new();
        let n: usize = self.active.len();
        let mut i: usize = 0;
        assert(self.active@.take(0) =~= out@);
        while i < n
            invariant
                n == self.active@.len(),
                0 <= i <= n,
                newest_first(out@),
                out@.to_multiset() == self.active@.take(i as int).to_multiset(),
            decreases n - i,
        {
            let x = self.active[i];
            proof {
                assert(self.active@.take(i + 1) =~= self.active@.take(i as int).push(x));
                vstd::seq_lib::to_multiset_build(self.active@.take(i as int), x);
            }
            insert_newest_first(&mut out, x);
            i = i + 1;
        }
        assert(self.active@.take(n as int) =~= self.active@);
        out
    }

    /// The live loans of user `u`, the latest check-out first.
    pub fn find_unreturned_by_user_id(&self, u: UserId) -> (r: Vec<ActiveCheckout>)
        requires
            self.wf(),
        ensures
            r@.to_multiset() == self@.lent_to(u).to_multiset(),
            newest_first(r@),
    {
        let mut out: Vec<ActiveCheckout> = Vec::new();
        let n: usize = self.active.len();
        let mut i: usize = 0;
        proof {
            self.active@.take(0).lemma_filter_len(by_user(u));
            assert(self.active@.take(0).filter(by_user(u)) =~= out@);
        }
        while i < n
            invariant
                n == self.active@.len(),
                0 <= i <= n,
                newest_first(out@),
                out@.to_multiset() == self.active@.take(i as int).filter(by_user(u)).to_multiset(),
            decreases n - i,
        {
            let x = self.active[i];
            proof {
                assert(self.active@.take(i + 1) =~= self.active@.take(i as int).push(x));
                self.active@.take(i as int).lemma_filter_push(x, by_user(u));
                vstd::seq_lib::to_multiset_build(self.active@.take(i as int).filter(by_user(u)), x);
            }
            if x.borrower_id == u {
                insert_newest_first(&mut out, x);
            }
            i = i + 1;
        }
        assert(self.active@.take(n as int) =~= self.active@);
        out
    }
}

} // verus!
