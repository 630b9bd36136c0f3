//! The read side: live loans and a book's loan history, each listed with the
//! most recent check-out first.

use vstd::prelude::*;
use vstd::seq_lib::to_multiset_insert;
use crate::ids::{BookId, UserId};
use crate::model::{ActiveCheckout, ArchivedCheckout, CheckoutRecord};

verus! {

/// Selects the archived loans of book `b`.
pub open spec fn of_book(b: BookId) -> spec_fn(ArchivedCheckout) -> bool {
    |r: ArchivedCheckout| r.book_id == b
}

/// Selects the live loans of user `u`.
pub open spec fn by_user(u: UserId) -> spec_fn(ActiveCheckout) -> bool {
    |c: ActiveCheckout| c.borrower_id == u
}

/// A loan row with the instant it was checked out.
pub trait CheckedOut {
    spec fn checked_out_time(&self) -> i64;

    fn checked_out_instant(&self) -> (r: i64)
        ensures
            r == self.checked_out_time(),
    ;
}

impl CheckedOut for ActiveCheckout {
    open spec fn checked_out_time(&self) -> i64 {
        self.checked_out_at
    }

    fn checked_out_instant(&self) -> (r: i64) {
        self.checked_out_at
    }
}

impl CheckedOut for ArchivedCheckout {
    open spec fn checked_out_time(&self) -> i64 {
        self.checked_out_at
    }

    fn checked_out_instant(&self) -> (r: i64) {
        self.checked_out_at
    }
}

/// Loans listed with the latest check-out first.
pub open spec fn newest_first<T: CheckedOut>(s: Seq<T>) -> bool {
    forall|i: int, j: int|
        0 <= i < j < s.len() ==> #[trigger] s[i].checked_out_time() >= #[trigger] s[j].checked_out_time()
}

/// The head of a history: the live loan, if there is one.
pub open spec fn leading(live: Option<ActiveCheckout>) -> Seq<CheckoutRecord> {
    match live {
        Some(a) => seq![CheckoutRecord::Active(a)],
        None => Seq::<CheckoutRecord>::empty(),
    }
}

/// Archived loans as history entries.
pub open spec fn as_records(s: Seq<ArchivedCheckout>) -> Seq<CheckoutRecord> {
    s.map_values(|r: ArchivedCheckout| CheckoutRecord::Archived(r))
}

/// Inserts `x` into `v`, which lists loans latest check-out first, where it
/// keeps that order.
pub fn insert_newest_first<T: CheckedOut>(v: &mut Vec<T>, x: T)
    requires
        newest_first(old(v)@),
    ensures
        newest_first(final(v)@),
        final(v)@.to_multiset() == old(v)@.to_multiset().insert(x),
        final(v)@.len() == old(v)@.len() + 1,
{
    let t = x.checked_out_instant();
    let mut p: usize = 0;
    let mut found = false;
    while !found && p < v.len()
        invariant
            0 <= p <= v@.len(),
            t == x.checked_out_time(),
            forall|q: int| 0 <= q < p ==> v@[q].checked_out_time() >= x.checked_out_time(),
            found ==> p < v@.len() && v@[p as int].checked_out_time() < x.checked_out_time(),
        decreases v@.len() - p + (if found { 0int } else { 1int }),
    {
        if v[p].checked_out_instant() >= t {
            p = p + 1;
        } else {
            found = true;
        }
    }
    let ghost pre = v@;
    v.insert(p, x);
    proof {
        to_multiset_insert(pre, p as int, x);
        assert forall|i: int| 0 <= i < v@.len() implies #[trigger] v@[i] == (if i < p {
            pre[i]
        } else if i == p {
            x
        } else {
            pre[i - 1]
        }) by {}
        assert forall|i: int, j: int| 0 <= i < j < v@.len() implies
            #[trigger] v@[i].checked_out_time() >= #[trigger] v@[j].checked_out_time() by {
            if j > p && i != p && p < pre.len() {
                assert(pre[p as int].checked_out_time() >= pre[j - 1].checked_out_time());
            }
            if i == p && p < pre.len() {
                assert(pre[p as int].checked_out_time() >= pre[j - 1].checked_out_time());
            }
        }
    }
}

/// `h` lists `live` first, if any, then the loans of `archived` with the
/// latest check-out first; `done` is that archived part.
pub open spec fn ordered_history(
    live: Option<ActiveCheckout>,
    archived: Seq<ArchivedCheckout>,
    h: Seq<CheckoutRecord>,
    done: Seq<ArchivedCheckout>,
) -> bool {
    &&& done.to_multiset() == archived.to_multiset()
    &&& newest_first(done)
    &&& h == leading(live) + as_records(done)
}

/// A book's history from its live loan and its archived loans, in any order:
/// the live loan first, then the archived ones, the latest check-out first.
pub fn assemble_history(live: Option<ActiveCheckout>, archived: Vec<ArchivedCheckout>) -> (r: Vec<
    CheckoutRecord,
>)
    ensures
        exists|done: Seq<ArchivedCheckout>| #[trigger] ordered_history(live, archived@, r@, done),
{
    let mut done: Vec<ArchivedCheckout> = Vec::new();
    let n: usize = archived.len();
    let mut i: usize = 0;
    assert(archived@.take(0) =~= done@);
    while i < n
        invariant
            n == archived@.len(),
            0 <= i <= n,
            newest_first(done@),
            done@.to_multiset() == archived@.take(i as int).to_multiset(),
        decreases n - i,
    {
        let x = archived[i];
        proof {
            assert(archived@.take(i + 1) =~= archived@.take(i as int).push(x));
            vstd::seq_lib::to_multiset_build(archived@.take(i as int), x);
        }
        insert_newest_first(&mut done, x);
        i = i + 1;
    }
    assert(archived@.take(n as int) =~= archived@);
    let mut out: Vec<CheckoutRecord> = Vec::new();
    match live {
        Some(a) => out.push(CheckoutRecord::Active(a)),
        None => {},
    }
    assert(out@ =~= leading(live));
    let mut j: usize = 0;
    while j < done.len()
        invariant
            0 <= j <= done@.len(),
            out@ == leading(live) + as_records(done@.take(j as int)),
        decreases done@.len() - j,
    {
        out.push(CheckoutRecord::Archived(done[j]));
        assert(as_records(done@.take(j + 1)) =~= as_records(done@.take(j as int)).push(
            CheckoutRecord::Archived(done@[j as int]),
        ));
        assert(out@ =~= leading(live) + as_records(done@.take(j + 1)));
        j = j + 1;
    }
    assert(done@.take(done@.len() as int) =~= done@);
    assert(ordered_history(live, archived@, out@, done@));
    out
}

} // verus!
