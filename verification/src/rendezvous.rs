//! The path-resolution rendezvous.
//!
//! A resource lookup blocks until the controller answers with a record
//! for the same URL.  The pending-waiter table keys waiters by URL: a
//! record resolves exactly the waiter with its URL and is discarded when
//! no waiter matches; it never resolves more than one waiter.

use vstd::prelude::*;
use crate::codec::PathRecord;
use crate::text::{chars_of, chars_eq};

verus! {

pub open spec fn urls_view(us: Seq<String>) -> Seq<Seq<char>> {
    Seq::new(us.len(), |i: int| us[i]@)
}

/// No two pending waiters share a URL.
pub open spec fn uniq_urls(us: Seq<Seq<char>>) -> bool {
    forall|i: int, j: int| 0 <= i < j < us.len() ==> us[i] != us[j]
}

/// Delivery of a record for `u` to a waiter list: the first waiter with
/// URL `u` leaves the list and is resolved; with no match the list is
/// unchanged and the record is discarded.
pub open spec fn spec_deliver(us: Seq<Seq<char>>, u: Seq<char>) -> (Seq<Seq<char>>, bool)
    decreases us.len(),
{
    if us.len() == 0 {
        (us, false)
    } else if us[0] == u {
        (us.skip(1), true)
    } else {
        let r = spec_deliver(us.skip(1), u);
        (seq![us[0]] + r.0, r.1)
    }
}

pub open spec fn has_url(us: Seq<Seq<char>>, u: Seq<char>) -> bool {
    exists|i: int| 0 <= i < us.len() && us[i] == u
}

proof fn lemma_deliver_none(us: Seq<Seq<char>>, u: Seq<char>)
    requires
        !has_url(us, u),
    ensures
        spec_deliver(us, u) == (us, false),
    decreases us.len(),
{
    if us.len() > 0 {
        assert(us[0] != u);
        assert forall|j: int| 0 <= j < us.skip(1).len() implies us.skip(1)[j] != u by {
            assert(us.skip(1)[j] == us[j + 1]);
        }
        lemma_deliver_none(us.skip(1), u);
        assert(seq![us[0]] + us.skip(1) =~= us);
    }
}

proof fn lemma_deliver_at(us: Seq<Seq<char>>, u: Seq<char>, i: int)
    requires
        0 <= i < us.len(),
        us[i] == u,
        forall|j: int| 0 <= j < i ==> us[j] != u,
    ensures
        spec_deliver(us, u).1 == true,
        spec_deliver(us, u).0 =~= us.remove(i),
    decreases i,
{
    if i == 0 {
        assert(us.skip(1) =~= us.remove(0));
    } else {
        assert(us[0] != u);
        assert(us.skip(1)[i - 1] == us[i]);
        assert forall|j: int| 0 <= j < i - 1 implies us.skip(1)[j] != u by {
            assert(us.skip(1)[j] == us[j + 1]);
        }
        lemma_deliver_at(us.skip(1), u, i - 1);
        assert(seq![us[0]] + us.skip(1).remove(i - 1) =~= us.remove(i));
    }
}

// ---------------------------------------------------------------------------
// Laws of the rendezvous
// ---------------------------------------------------------------------------

/// A record resolves a waiter if and only if a waiter with its URL is
/// pending; unrelated records resolve nobody.
pub proof fn lemma_deliver_iff(us: Seq<Seq<char>>, u: Seq<char>)
    ensures
        spec_deliver(us, u).1 <==> has_url(us, u),
    decreases us.len(),
{
    if us.len() == 0 {
    } else if us[0] == u {
    } else {
        lemma_deliver_iff(us.skip(1), u);
        assert forall|j: int| 0 <= j < us.skip(1).len() implies us.skip(1)[j] == us[j + 1] by {}
        if has_url(us.skip(1), u) {
            let j = choose|j: int| 0 <= j < us.skip(1).len() && us.skip(1)[j] == u;
            assert(us[j + 1] == u);
        } else if has_url(us, u) {
            let j = choose|j: int| 0 <= j < us.len() && us[j] == u;
            assert(us.skip(1)[j - 1] == u);
        }
    }
}

/// One record resolves at most one waiter: a match removes exactly one
/// entry, a miss removes none.
pub proof fn lemma_no_double_delivery(us: Seq<Seq<char>>, u: Seq<char>)
    ensures
        spec_deliver(us, u).1 ==> spec_deliver(us, u).0.len() == us.len() - 1,
        !spec_deliver(us, u).1 ==> spec_deliver(us, u).0 == us,
    decreases us.len(),
{
    if us.len() == 0 {
    } else if us[0] == u {
    } else {
        lemma_no_double_delivery(us.skip(1), u);
        if !spec_deliver(us.skip(1), u).1 {
            assert(seq![us[0]] + us.skip(1) =~= us);
        }
    }
}

/// With unique waiters, a record delivered once finds no second waiter:
/// delivering the same URL again resolves nobody.
pub proof fn lemma_redeliver_misses(us: Seq<Seq<char>>, u: Seq<char>)
    requires
        uniq_urls(us),
    ensures
        !spec_deliver(spec_deliver(us, u).0, u).1,
    decreases us.len(),
{
    if us.len() == 0 {
    } else if us[0] == u {
        assert forall|j: int| 0 <= j < us.skip(1).len() implies us.skip(1)[j] != u by {
            assert(us.skip(1)[j] == us[j + 1]);
        }
        lemma_deliver_none(us.skip(1), u);
    } else {
        assert forall|i: int, j: int|
            0 <= i < j < us.skip(1).len() implies us.skip(1)[i] != us.skip(1)[j] by {
            assert(us.skip(1)[i] == us[i + 1] && us.skip(1)[j] == us[j + 1]);
        }
        lemma_redeliver_misses(us.skip(1), u);
        let once = spec_deliver(us.skip(1), u).0;
        lemma_deliver_iff(once, u);
        if has_url(seq![us[0]] + once, u) {
            let j = choose|j: int|
                0 <= j < (seq![us[0]] + once).len() && (seq![us[0]] + once)[j] == u;
            if j == 0 {
                assert(us[0] == u);
            } else {
                assert(once[j - 1] == u);
                assert(has_url(once, u));
            }
        }
        lemma_deliver_iff(seq![us[0]] + once, u);
    }
}

// ---------------------------------------------------------------------------
// The pending-waiter table
// ---------------------------------------------------------------------------

/// The table of pending lookups, keyed by URL.
pub struct Rendezvous {
    pub pending: Vec<String>,
}

impl Rendezvous {
    pub open spec fn wf(&self) -> bool {
        uniq_urls(urls_view(self.pending@))
    }

    /// An empty table.
    pub fn new() -> (r: Rendezvous)
        ensures
            r.wf(),
            urls_view(r.pending@) == Seq::<Seq<char>>::empty(),
    {
        let r = Rendezvous { pending: Vec::new() };
        proof {
            assert(urls_view(r.pending@) =~= Seq::<Seq<char>>::empty());
        }
        r
    }

    fn find(&self, url: &str) -> (r: Option<usize>)
        ensures
            match r {
                Some(i) => i < self.pending@.len() && self.pending@[i as int]@ == url@ && forall|
                    j: int,
                |
                    0 <= j < i ==> urls_view(self.pending@)[j] != url@,
                None => !has_url(urls_view(self.pending@), url@),
            },
    {
        let u = chars_of(url);
        let n = self.pending.len();
        let mut i: usize = 0;
        while i < n
            invariant
                n == self.pending@.len(),
                i <= n,
                u@ == url@,
                forall|j: int| 0 <= j < i ==> urls_view(self.pending@)[j] != url@,
            decreases n - i,
        {
            let cand = chars_of(self.pending[i].as_str());
            if chars_eq(cand.as_slice(), u.as_slice()) {
                return Some(i);
            }
            i = i + 1;
        }
        proof {
            assert(!has_url(urls_view(self.pending@), url@));
        }
        None
    }

    /// Register a new pending lookup; refused when one with the same URL
    /// is already waiting.
    pub fn register(&mut self, url: String) -> (r: bool)
        requires
            old(self).wf(),
        ensures
            final(self).wf(),
            r == !has_url(urls_view(old(self).pending@), url@),
            r ==> urls_view(final(self).pending@) == urls_view(old(self).pending@).push(url@),
            !r ==> final(self).pending@ == old(self).pending@,
    {
        match self.find(url.as_str()) {
            Some(i) => {
                proof {
                    assert(urls_view(self.pending@)[i as int] == url@);
                    assert(has_url(urls_view(self.pending@), url@));
                }
                false
            },
            None => {
                let ghost us_old = urls_view(self.pending@);
                self.pending.push(url);
                proof {
                    assert(urls_view(self.pending@) =~= us_old.push(url@));
                    assert forall|i: int, j: int|
                        0 <= i < j < urls_view(self.pending@).len() implies urls_view(
                        self.pending@,
                    )[i] != urls_view(self.pending@)[j] by {
                        if j < us_old.len() {
                        } else {
                            assert(urls_view(self.pending@)[j] == url@);
                            assert(urls_view(self.pending@)[i] == us_old[i]);
                        }
                    }
                }
                true
            },
        }
    }

    /// Deliver an arriving record: resolve the waiter with its URL if one
    /// is pending, else leave every waiter untouched.  Returns whether a
    /// waiter was resolved.
    pub fn deliver(&mut self, record: &PathRecord) -> (r: bool)
        requires
            old(self).wf(),
        ensures
            final(self).wf(),
            (urls_view(final(self).pending@), r) == spec_deliver(
                urls_view(old(self).pending@),
                record.url@,
            ),
    {
        let ghost us = urls_view(self.pending@);
        match self.find(record.url.as_str()) {
            Some(i) => {
                proof {
                    lemma_deliver_at(us, record.url@, i as int);
                }
                self.pending.remove(i);
                proof {
                    assert(urls_view(self.pending@) =~= us.remove(i as int));
                    assert forall|a: int, b: int|
                        0 <= a < b < us.remove(i as int).len() implies us.remove(i as int)[a]
                        != us.remove(i as int)[b] by {
                        let oa: int = if a < i {
                            a
                        } else {
                            a + 1
                        };
                        let ob: int = if b < i {
                            b
                        } else {
                            b + 1
                        };
                        assert(us.remove(i as int)[a] == us[oa] && us.remove(i as int)[b]
                            == us[ob]);
                    }
                }
                true
            },
            None => {
                proof {
                    lemma_deliver_none(us, record.url@);
                }
                false
            },
        }
    }
}

// ---------------------------------------------------------------------------
// The blocking wait, over the controller's answer channel
// ---------------------------------------------------------------------------

#[verifier::external_type_specification]
#[verifier::external_body]
#[verifier::reject_recursive_types(T)]
pub struct ExReceiver<T>(crossbeam_channel::Receiver<T>);

/// Relies on crossbeam_channel::Receiver::recv: it blocks until a message
/// arrives or every sender is gone.  Which record arrives, if any, is the
/// controller's choice, so nothing is promised of the value.
#[verifier::external_body]
fn recv_record(rx: &crossbeam_channel::Receiver<PathRecord>) -> (r: Option<PathRecord>) {
    match rx.recv() {
        Ok(p) => Some(p),
        Err(_) => None,
    }
}

/// The waiter's decision on one arriving record: a record for exactly
/// the wanted URL is taken, unchanged; any other record is discarded.
pub fn take_if_match(rec: PathRecord, url: &str) -> (r: Option<PathRecord>)
    ensures
        (r is Some) == (rec.url@ == url@),
        match r {
            Some(k) => k == rec,
            None => rec.url@ != url@,
        },
{
    let got = chars_of(rec.url.as_str());
    let want = chars_of(url);
    if chars_eq(got.as_slice(), want.as_slice()) {
        Some(rec)
    } else {
        None
    }
}

/// Block until a record for exactly `url` arrives, discarding records
/// for other URLs.  `None` once the channel closes, or after `discards`
/// mismatched records have been dropped: the protocol has no timeout, so
/// the caller bounds the wait and fails the lookup instead of stalling
/// forever.  Each received record goes through `take_if_match`, which
/// pins the decision: what comes back is the first record whose URL is
/// the wanted one.
pub fn await_path(url: &str, rx: &crossbeam_channel::Receiver<PathRecord>, discards: usize) -> (r:
    Option<PathRecord>)
    ensures
        match r {
            Some(rec) => rec.url@ == url@,
            None => true,
        },
{
    let mut left = discards;
    loop
        decreases left,
    {
        match recv_record(rx) {
            None => {
                return None;
            },
            Some(rec) => {
                match take_if_match(rec, url) {
                    Some(found) => {
                        return Some(found);
                    },
                    None => {
                        if left == 0 {
                            return None;
                        }
                        left = left - 1;
                    },
                }
            },
        }
    }
}

} // verus!
