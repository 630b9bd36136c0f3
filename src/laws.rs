//! Properties of the ledger that relate several operations, stated over the
//! steps that `CheckoutRepositoryImpl::create` and
//! `CheckoutRepositoryImpl::update_returned` are proved to take.

use vstd::prelude::*;
use crate::history::{as_records, of_book, CheckedOut};
use crate::ids::{BookId, CheckoutId, UserId};
use crate::ledger::{
    check_out_step, CheckoutRepositoryImpl, history_with, is_history, lemma_check_out_keeps_invariant,
    lemma_return_keeps_invariant, return_step, LedgerState,
};
use crate::model::{ArchivedCheckout, CheckoutRecord, LedgerError};

verus! {

/// The state after `times.len()` loans of book `b` to user `u`, one after the
/// other: each pair gives the check-out and the return instant of one loan.
pub open spec fn run_cycles(s: LedgerState, b: BookId, u: UserId, times: Seq<(i64, i64)>) -> LedgerState
    decreases times.len(),
{
    if times.len() == 0 {
        s
    } else {
        let before = run_cycles(s, b, u, times.drop_last());
        let (lent, r) = check_out_step(before, b, u, times.last().0);
        match r {
            Ok(id) => return_step(lent, id, b, u, times.last().1).0,
            Err(_) => lent,
        }
    }
}

/// One loan of an idle book, from check-out to return: both succeed, the live
/// table is as before, and the archive gains exactly that loan.
pub proof fn lemma_one_cycle(s: LedgerState, b: BookId, u: UserId, t1: i64, t2: i64)
    requires
        s.wf(),
        s.book_exists(b),
        !s.is_lent(b),
        s.next_id < u128::MAX,
        t1 <= t2,
    ensures
        ({
            let id = CheckoutId { value: s.next_id as u128 };
            let (lent, r1) = check_out_step(s, b, u, t1);
            let (back, r2) = return_step(lent, id, b, u, t2);
            &&& r1 == Ok::<CheckoutId, LedgerError>(id)
            &&& r2 == Ok::<(), LedgerError>(())
            &&& back.wf()
            &&& back.books == s.books
            &&& back.active == s.active
            &&& back.next_id == s.next_id + 1
            &&& back.archived == s.archived.push(ArchivedCheckout {
                checkout_id: id,
                book_id: b,
                borrower_id: u,
                checked_out_at: t1,
                returned_at: t2,
            })
        }),
{
    let id = CheckoutId { value: s.next_id as u128 };
    let (lent, r1) = check_out_step(s, b, u, t1);
    lemma_check_out_keeps_invariant(s, b, u, t1);
    let n = s.active.len() as int;
    assert(lent.active[n].book_id == b);
    assert(lent.is_lent(b));
    let k = lent.active_index(b);
    assert(k == n) by {
        if k < n {
            assert(lent.active[k] == s.active[k]);
        }
    }
    lemma_return_keeps_invariant(lent, id, b, u, t2);
    assert(lent.active.remove(n) =~= s.active);
}

/// At any time a book has at most one live loan: every ledger starts with
/// none, and each check-out or return keeps the invariant that says so.
pub proof fn law_at_most_one_live_loan_per_book(
    s: LedgerState,
    b: BookId,
    u: UserId,
    t: i64,
    id: CheckoutId,
)
    requires
        s.wf(),
    ensures
        check_out_step(s, b, u, t).0.one_loan_per_book(),
        return_step(s, id, b, u, t).0.one_loan_per_book(),
        check_out_step(s, b, u, t).0.wf(),
        return_step(s, id, b, u, t).0.wf(),
{
    lemma_check_out_keeps_invariant(s, b, u, t);
    lemma_return_keeps_invariant(s, id, b, u, t);
}

/// Of two check-outs of a book that is not lent, the first succeeds and the
/// second fails with `Conflict`, leaving the first loan in place.
pub proof fn law_racing_check_outs_one_wins(
    s: LedgerState,
    b: BookId,
    u1: UserId,
    t1: i64,
    u2: UserId,
    t2: i64,
)
    requires
        s.wf(),
        s.book_exists(b),
        !s.is_lent(b),
        s.next_id < u128::MAX,
    ensures
        ({
            let (first, r1) = check_out_step(s, b, u1, t1);
            let (second, r2) = check_out_step(first, b, u2, t2);
            &&& r1 is Ok
            &&& r2 == Err::<CheckoutId, LedgerError>(LedgerError::Conflict)
            &&& second == first
        }),
{
    let (first, r1) = check_out_step(s, b, u1, t1);
    let n = s.active.len() as int;
    assert(first.active[n].book_id == b);
    assert(first.is_lent(b));
    assert(first.books == s.books);
}

/// Of two check-outs of a book of the ledger `db` that is not lent, the
/// first succeeds and the second fails with `Conflict`, leaving the first
/// loan in place. A ledger never runs out of loan identifiers, so nothing
/// more is needed of it than its invariant.
pub proof fn law_racing_check_outs_on_ledger(
    db: &CheckoutRepositoryImpl,
    b: BookId,
    u1: UserId,
    t1: i64,
    u2: UserId,
    t2: i64,
)
    requires
        db.wf(),
        db@.book_exists(b),
        !db@.is_lent(b),
    ensures
        ({
            let (first, r1) = check_out_step(db@, b, u1, t1);
            let (second, r2) = check_out_step(first, b, u2, t2);
            &&& r1 is Ok
            &&& r2 == Err::<CheckoutId, LedgerError>(LedgerError::Conflict)
            &&& second == first
        }),
{
    db.lemma_view_wf();
    law_racing_check_outs_one_wins(db@, b, u1, t1, u2, t2);
}

/// A return that names another loan than the book's live one fails with
/// `Conflict` and changes nothing.
pub proof fn law_return_of_stale_loan_conflicts(
    s: LedgerState,
    id: CheckoutId,
    b: BookId,
    u: UserId,
    t: i64,
)
    requires
        s.wf(),
        s.is_lent(b),
        s.active_of(b)->Some_0.checkout_id != id,
    ensures
        return_step(s, id, b, u, t) == (s, Err::<(), LedgerError>(LedgerError::Conflict)),
{
}

/// Of two returns of the live loan of a book, the first succeeds and the
/// second fails with `NotFound`; the loan then stands in the archive, once,
/// and no longer among the live loans.
pub proof fn law_double_return_one_wins(s: LedgerState, b: BookId, t: i64, t2: i64)
    requires
        s.wf(),
        s.is_lent(b),
        s.active_of(b)->Some_0.checked_out_at <= t,
    ensures
        ({
            let a = s.active_of(b)->Some_0;
            let (back, r1) = return_step(s, a.checkout_id, b, a.borrower_id, t);
            let (again, r2) = return_step(back, a.checkout_id, b, a.borrower_id, t2);
            &&& r1 == Ok::<(), LedgerError>(())
            &&& r2 == Err::<(), LedgerError>(LedgerError::NotFound)
            &&& again == back
            &&& back.archived == s.archived.push(a.archived_at(t))
            &&& forall|i: int| 0 <= i < back.active.len() ==> #[trigger] back.active[i].checkout_id != a.checkout_id
            &&& forall|i: int| 0 <= i < s.archived.len() ==> #[trigger] s.archived[i].checkout_id != a.checkout_id
        }),
{
    let a = s.active_of(b)->Some_0;
    let k = s.active_index(b);
    let back = return_step(s, a.checkout_id, b, a.borrower_id, t).0;
    assert(back.active == s.active.remove(k));
    assert forall|i: int| 0 <= i < back.active.len() implies #[trigger] back.active[i].book_id != b
        && back.active[i].checkout_id != a.checkout_id by {
        let pi = if i < k { i } else { i + 1 };
        assert(back.active[i] == s.active[pi]);
        assert(s.active[pi].book_id != s.active[k].book_id);
        assert(s.active[pi].checkout_id != s.active[k].checkout_id);
    }
    assert(!back.is_lent(b));
    assert forall|i: int| 0 <= i < s.archived.len() implies #[trigger] s.archived[i].checkout_id != a.checkout_id by {
        assert(s.active[k].checkout_id != s.archived[i].checkout_id);
    }
}

/// A check-out of a book that is not in the catalog fails with `NotFound` and
/// adds no loan.
pub proof fn law_check_out_of_missing_book(s: LedgerState, b: BookId, u: UserId, t: i64)
    requires
        !s.book_exists(b),
    ensures
        check_out_step(s, b, u, t) == (s, Err::<CheckoutId, LedgerError>(LedgerError::NotFound)),
{
}

/// A check-out of a book that is lent fails with `Conflict`; the live loan
/// keeps its identifier and everything else stays as it was.
pub proof fn law_check_out_of_lent_book(s: LedgerState, b: BookId, u: UserId, t: i64)
    requires
        s.book_exists(b),
        s.is_lent(b),
    ensures
        check_out_step(s, b, u, t) == (s, Err::<CheckoutId, LedgerError>(LedgerError::Conflict)),
        check_out_step(s, b, u, t).0.active_of(b) == s.active_of(b),
{
}

/// A loan of a book never lent before, checked out at `t1` and returned at
/// `t2`, leaves the book idle with a history of exactly that one loan.
pub proof fn law_check_out_then_return(
    s: LedgerState,
    b: BookId,
    u: UserId,
    t1: i64,
    t2: i64,
    h: Seq<CheckoutRecord>,
)
    requires
        s.wf(),
        s.book_exists(b),
        !s.is_lent(b),
        s.archived_of(b).len() == 0,
        s.next_id < u128::MAX,
        t1 <= t2,
    ensures
        ({
            let (lent, r1) = check_out_step(s, b, u, t1);
            let id = r1->Ok_0;
            let (back, r2) = return_step(lent, id, b, u, t2);
            &&& r1 is Ok
            &&& r2 is Ok
            &&& back.active_of(b) is None
            &&& is_history(back, b, h) ==> h == seq![
                CheckoutRecord::Archived(ArchivedCheckout {
                    checkout_id: id,
                    book_id: b,
                    borrower_id: u,
                    checked_out_at: t1,
                    returned_at: t2,
                }),
            ]
        }),
{
    lemma_one_cycle(s, b, u, t1, t2);
    let id = CheckoutId { value: s.next_id as u128 };
    let (lent, r1) = check_out_step(s, b, u, t1);
    let (back, r2) = return_step(lent, id, b, u, t2);
    let rec = ArchivedCheckout {
        checkout_id: id,
        book_id: b,
        borrower_id: u,
        checked_out_at: t1,
        returned_at: t2,
    };
    s.archived.lemma_filter_push(rec, of_book(b));
    assert(s.archived_of(b) =~= Seq::<ArchivedCheckout>::empty());
    assert(back.archived_of(b) =~= seq![rec]);
    assert(!back.is_lent(b));
    if is_history(back, b, h) {
        let done = choose|done: Seq<ArchivedCheckout>| #[trigger] history_with(back, b, h, done);
        lemma_single(done, rec);
        assert(as_records(done) =~= seq![CheckoutRecord::Archived(rec)]);
        assert(h =~= seq![CheckoutRecord::Archived(rec)]);
    }
}

/// A sequence whose multiset is that of `seq![x]` is `seq![x]`.
proof fn lemma_single(done: Seq<ArchivedCheckout>, x: ArchivedCheckout)
    requires
        done.to_multiset() == seq![x].to_multiset(),
    ensures
        done == seq![x],
{
    broadcast use vstd::seq_lib::group_to_multiset_ensures;

    assert(seq![x][0] == x);
    assert(seq![x].contains(x));
    assert(done.to_multiset().count(x) > 0);
    assert(done.contains(x));
    assert(done.len() == done.to_multiset().len());
    assert(seq![x].len() == seq![x].to_multiset().len());
    assert(done =~= seq![x]);
}

/// After `times.len()` loans of a book never lent before, one after the
/// other, the book is idle and its history holds exactly those loans, all
/// archived, the latest check-out first.
pub proof fn law_repeated_loans_history(
    s: LedgerState,
    b: BookId,
    u: UserId,
    times: Seq<(i64, i64)>,
    h: Seq<CheckoutRecord>,
)
    requires
        s.wf(),
        s.book_exists(b),
        !s.is_lent(b),
        s.archived_of(b).len() == 0,
        s.next_id + times.len() < u128::MAX,
        forall|k: int| 0 <= k < times.len() ==> #[trigger] times[k].0 <= times[k].1,
    ensures
        run_cycles(s, b, u, times).wf(),
        !run_cycles(s, b, u, times).is_lent(b),
        run_cycles(s, b, u, times).archived_of(b).len() == times.len(),
        is_history(run_cycles(s, b, u, times), b, h) ==> {
            &&& h.len() == times.len()
            &&& forall|k: int| 0 <= k < h.len() ==> #[trigger] h[k] is Archived
            &&& forall|i: int, j: int|
                0 <= i < j < h.len() ==> #[trigger] h[i]->Archived_0.checked_out_at
                    >= #[trigger] h[j]->Archived_0.checked_out_at
        },
{
    lemma_cycles(s, b, u, times);
    let f = run_cycles(s, b, u, times);
    if is_history(f, b, h) {
        broadcast use vstd::seq_lib::group_to_multiset_ensures;

        let done = choose|done: Seq<ArchivedCheckout>| #[trigger] history_with(f, b, h, done);
        assert(done.len() == done.to_multiset().len());
        assert(f.archived_of(b).len() == f.archived_of(b).to_multiset().len());
        assert(h == as_records(done));
        assert forall|i: int, j: int| 0 <= i < j < h.len() implies
            #[trigger] h[i]->Archived_0.checked_out_at >= #[trigger] h[j]->Archived_0.checked_out_at by {
            assert(h[i] == CheckoutRecord::Archived(done[i]));
            assert(h[j] == CheckoutRecord::Archived(done[j]));
            assert(done[i].checked_out_time() >= done[j].checked_out_time());
        }
    }
}

/// Repeated loans of an idle book keep it idle, in the catalog, and add one
/// archived loan each.
proof fn lemma_cycles(s: LedgerState, b: BookId, u: UserId, times: Seq<(i64, i64)>)
    requires
        s.wf(),
        s.book_exists(b),
        !s.is_lent(b),
        s.next_id + times.len() < u128::MAX,
        forall|k: int| 0 <= k < times.len() ==> #[trigger] times[k].0 <= times[k].1,
    ensures
        run_cycles(s, b, u, times).wf(),
        run_cycles(s, b, u, times).books == s.books,
        run_cycles(s, b, u, times).active == s.active,
        run_cycles(s, b, u, times).next_id == s.next_id + times.len(),
        run_cycles(s, b, u, times).archived_of(b).len() == s.archived_of(b).len() + times.len(),
    decreases times.len(),
{
    if times.len() > 0 {
        let rest = times.drop_last();
        assert forall|k: int| 0 <= k < rest.len() implies #[trigger] rest[k].0 <= rest[k].1 by {
            assert(rest[k] == times[k]);
        }
        lemma_cycles(s, b, u, rest);
        let before = run_cycles(s, b, u, rest);
        assert(before.book_exists(b));
        assert(!before.is_lent(b));
        let (t1, t2) = times.last();
        assert(times[times.len() - 1].0 <= times[times.len() - 1].1);
        lemma_one_cycle(before, b, u, t1, t2);
        let id = CheckoutId { value: before.next_id as u128 };
        let rec = ArchivedCheckout {
            checkout_id: id,
            book_id: b,
            borrower_id: u,
            checked_out_at: t1,
            returned_at: t2,
        };
        before.archived.lemma_filter_push(rec, of_book(b));
    }
}

} // verus!
