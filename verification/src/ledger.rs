//! The booking ledger: owns the booking lifecycle and enforces the no-overlap
//! invariant. It doubles as the interval index: it answers overlap queries
//! and lists the active bookings of a resource within a window.

use vstd::prelude::*;
use vstd::pervasive::VecAdditionalExecFns;
use crate::booking::{Booking, BookingError, BookingStatus, CapacityFreed};
use crate::interval::Interval;

verus! {

/// Every booking is stored at the index equal to its id, so ids are unique
/// and stable.
pub open spec fn ids_assigned(s: Seq<Booking>) -> bool {
    forall|k: int| 0 <= k < s.len() ==> (#[trigger] s[k]).id == k as u64
}

/// Every stored interval is non-empty.
pub open spec fn intervals_valid(s: Seq<Booking>) -> bool {
    forall|k: int| 0 <= k < s.len() ==> (#[trigger] s[k]).interval.is_valid()
}

/// No two active bookings on the same resource overlap in time.
pub open spec fn active_disjoint(s: Seq<Booking>) -> bool {
    forall|i: int, j: int|
        #![trigger s[i], s[j]]
        0 <= i < s.len() && 0 <= j < s.len() && i != j && s[i].is_active() && s[j].is_active()
            && s[i].resource_id == s[j].resource_id ==> !s[i].interval.overlaps_spec(
            s[j].interval,
        )
}

/// Some active booking on `resource_id` overlaps `iv`.
pub open spec fn has_conflict(s: Seq<Booking>, resource_id: u64, iv: Interval) -> bool {
    exists|k: int|
        0 <= k < s.len() && (#[trigger] s[k]).is_active() && s[k].resource_id == resource_id
            && s[k].interval.overlaps_spec(iv)
}

/// The booking a successful create stores and returns.
pub open spec fn fresh_booking(
    id: u64,
    resource_id: u64,
    iv: Interval,
    note: Option<String>,
    owner_id: u64,
) -> Booking {
    Booking { id, resource_id, owner_id, interval: iv, note, status: BookingStatus::Active }
}

/// `b` with its status moved to `Cancelled`; every other field is kept.
pub open spec fn cancelled_of(b: Booking) -> Booking {
    Booking { status: BookingStatus::Cancelled, ..b }
}

/// `b` is one of the bookings a listing of `resource_id` over `window`
/// reports: active, on that resource, and overlapping the window.
pub open spec fn in_window(b: Booking, resource_id: u64, window: Interval) -> bool {
    b.is_active() && b.resource_id == resource_id && b.interval.overlaps_spec(window)
}

/// Start times never decrease along the sequence.
pub open spec fn sorted_by_start(s: Seq<Booking>) -> bool {
    forall|i: int, j: int|
        #![trigger s[i], s[j]]
        0 <= i < j < s.len() ==> s[i].interval.start <= s[j].interval.start
}

/// Interval start times never decrease along the sequence.
pub open spec fn intervals_sorted(s: Seq<Interval>) -> bool {
    forall|i: int, j: int| #![trigger s[i], s[j]] 0 <= i < j < s.len() ==> s[i].start <= s[j].start
}

/// The bookings a listing of `resource_id` over `window` reports, as a
/// predicate value shared by the listing contracts.
pub open spec fn window_pred(resource_id: u64, window: Interval) -> spec_fn(Booking) -> bool {
    |b: Booking| in_window(b, resource_id, window)
}

/// The bookings the listing operation reports under its optional filters:
/// active, on the resource if one is given, and overlapping the window if
/// one is given.
pub open spec fn listing_pred(resource_id: Option<u64>, window: Option<Interval>) -> spec_fn(
    Booking,
) -> bool {
    |b: Booking| b.is_active() && (match resource_id {
        Some(rid) => b.resource_id == rid,
        None => true,
    }) && (match window {
        Some(w) => b.interval.overlaps_spec(w),
        None => true,
    })
}

/// The interval of a booking, as a function value shared by the availability
/// contracts.
pub open spec fn interval_of() -> spec_fn(Booking) -> Interval {
    |b: Booking| b.interval
}

/// Insert `b` into a start-sorted vector, keeping it sorted.
fn insert_by_start(out: &mut Vec<Booking>, b: Booking)
    requires
        sorted_by_start(old(out)@),
    ensures
        sorted_by_start(final(out)@),
        final(out)@.to_multiset() == old(out)@.to_multiset().insert(b),
{
    let ghost pre = out@;
    let n = out.len();
    let mut j: usize = 0;
    while j < n && out[j].interval.start < b.interval.start
        invariant
            n == out@.len(),
            j <= n,
            out@ == pre,
            forall|m: int| 0 <= m < j ==> (#[trigger] out@[m]).interval.start < b.interval.start,
        decreases n - j,
    {
        j = j + 1;
    }
    out.insert(j, b);
    proof {
        assert forall|p: int, q: int|
            #![trigger out@[p], out@[q]]
            0 <= p < q < out@.len() implies out@[p].interval.start
            <= out@[q].interval.start by {
            assert(out@ == pre.insert(j as int, b));
            assert(forall|m: int|
                j <= m < pre.len() ==> (#[trigger] pre[m]).interval.start >= b.interval.start);
        }
        vstd::seq_lib::to_multiset_insert::<Booking>(pre, j as int, b);
    }
}

/// Insert `iv` into a start-sorted vector of intervals, keeping it sorted.
fn insert_interval_by_start(out: &mut Vec<Interval>, iv: Interval)
    requires
        intervals_sorted(old(out)@),
    ensures
        intervals_sorted(final(out)@),
        final(out)@.to_multiset() == old(out)@.to_multiset().insert(iv),
{
    let ghost pre = out@;
    let n = out.len();
    let mut j: usize = 0;
    while j < n && out[j].start < iv.start
        invariant
            n == out@.len(),
            j <= n,
            out@ == pre,
            forall|m: int| 0 <= m < j ==> (#[trigger] out@[m]).start < iv.start,
        decreases n - j,
    {
        j = j + 1;
    }
    out.insert(j, iv);
    proof {
        assert forall|p: int, q: int|
            #![trigger out@[p], out@[q]]
            0 <= p < q < out@.len() implies out@[p].start <= out@[q].start by {
            assert(out@ == pre.insert(j as int, iv));
            assert(forall|m: int| j <= m < pre.len() ==> (#[trigger] pre[m]).start >= iv.start);
        }
        vstd::seq_lib::to_multiset_insert::<Interval>(pre, j as int, iv);
    }
}

pub struct BookingLedger {
    bookings: Vec<Booking>,
}

impl View for BookingLedger {
    type V = Seq<Booking>;

    closed spec fn view(&self) -> Seq<Booking> {
        self.bookings@
    }
}

impl BookingLedger {
    /// Well-formedness: ids equal storage positions, intervals are non-empty,
    /// and active bookings of one resource are pairwise non-overlapping.
    pub open spec fn wf(self) -> bool {
        &&& ids_assigned(self@)
        &&& intervals_valid(self@)
        &&& active_disjoint(self@)
    }

    pub fn new() -> (r: BookingLedger)
        ensures
            r.wf(),
            r@ === Seq::<Booking>::empty(),
    {
        BookingLedger { bookings: Vec::new() }
    }

    /// Interval-index query: does `[iv.start, iv.end)` overlap any active
    /// booking on `resource_id`?
    pub fn overlaps(&self, resource_id: u64, iv: &Interval) -> (r: bool)
        ensures
            r == has_conflict(self@, resource_id, *iv),
    {
        let n = self.bookings.len();
        let mut k: usize = 0;
        while k < n
            invariant
                n == self@.len(),
                k <= n,
                forall|m: int|
                    0 <= m < k ==> !((#[trigger] self@[m]).is_active() && self@[m].resource_id
                        == resource_id && self@[m].interval.overlaps_spec(*iv)),
            decreases n - k,
        {
            let b = &self.bookings[k];
            if matches!(b.status, BookingStatus::Active) && b.resource_id == resource_id
                && b.interval.overlaps(iv) {
                return true;
            }
            k = k + 1;
        }
        false
    }

    /// Create a booking for `[start, end)` on `resource_id`.
    ///
    /// Rejects a malformed range with `InvalidRange` and an overlap with an
    /// existing active booking with `Conflict`, both without touching state;
    /// otherwise it stores and returns a fresh active booking whose id is
    /// assigned by the ledger. The overlap check and the insert happen inside
    /// one `&mut self` call, so no second conflicting create can interleave.
    pub fn create_booking(
        &mut self,
        resource_id: u64,
        start: i64,
        end: i64,
        note: Option<String>,
        owner_id: u64,
    ) -> (r: Result<Booking, BookingError>)
        requires
            old(self).wf(),
        ensures
            final(self).wf(),
            end <= start ==> r == Err::<Booking, BookingError>(BookingError::InvalidRange)
                && final(self)@ == old(self)@,
            start < end && has_conflict(old(self)@, resource_id, (Interval { start, end })) ==> r
                == Err::<Booking, BookingError>(BookingError::Conflict) && final(self)@ == old(
                self,
            )@,
            start < end && !has_conflict(old(self)@, resource_id, (Interval { start, end })) ==> ({
                let b = fresh_booking(
                    old(self)@.len() as u64,
                    resource_id,
                    (Interval { start, end }),
                    note,
                    owner_id,
                );
                r == Ok::<Booking, BookingError>(b) && final(self)@ == old(self)@.push(b)
            }),
    {
        if end <= start {
            return Err(BookingError::InvalidRange);
        }
        let iv = Interval { start, end };
        if self.overlaps(resource_id, &iv) {
            return Err(BookingError::Conflict);
        }
        let id = self.bookings.len() as u64;
        let booking = Booking {
            id,
            resource_id,
            owner_id,
            interval: iv,
            note,
            status: BookingStatus::Active,
        };
        let stored = booking.clone();
        self.bookings.push(stored);
        Ok(booking)
    }

    /// Cancel a booking.
    ///
    /// `NotFound` if no such booking exists; `Forbidden` if the caller is not
    /// the owner and not an admin; success without any change or event if the
    /// booking is already cancelled (idempotent); on a genuine
    /// `Active -> Cancelled` transition the booking is retained with its
    /// status moved, and the freed capacity is reported for the promotion
    /// engine to consume.
    pub fn cancel_booking(&mut self, booking_id: u64, owner_id: u64, is_admin: bool) -> (r: Result<
        Option<CapacityFreed>,
        BookingError,
    >)
        requires
            old(self).wf(),
        ensures
            final(self).wf(),
            booking_id >= old(self)@.len() ==> r == Err::<
                Option<CapacityFreed>,
                BookingError,
            >(BookingError::NotFound) && final(self)@ == old(self)@,
            booking_id < old(self)@.len() && !is_admin && old(self)@[booking_id as int].owner_id
                != owner_id ==> r == Err::<Option<CapacityFreed>, BookingError>(
                BookingError::Forbidden,
            ) && final(self)@ == old(self)@,
            booking_id < old(self)@.len() && (is_admin || old(self)@[booking_id as int].owner_id
                == owner_id) && !old(self)@[booking_id as int].is_active() ==> r == Ok::<
                Option<CapacityFreed>,
                BookingError,
            >(None) && final(self)@ == old(self)@,
            booking_id < old(self)@.len() && (is_admin || old(self)@[booking_id as int].owner_id
                == owner_id) && old(self)@[booking_id as int].is_active() ==> ({
                let b = old(self)@[booking_id as int];
                r == Ok::<Option<CapacityFreed>, BookingError>(
                    Some((CapacityFreed { resource_id: b.resource_id, interval: b.interval })),
                ) && final(self)@ == old(self)@.update(booking_id as int, cancelled_of(b))
            }),
    {
        let n = self.bookings.len();
        if booking_id >= n as u64 {
            return Err(BookingError::NotFound);
        }
        let idx: usize = booking_id as usize;
        let owner_matches = self.bookings[idx].owner_id == owner_id;
        if !is_admin && !owner_matches {
            return Err(BookingError::Forbidden);
        }
        if matches!(self.bookings[idx].status, BookingStatus::Cancelled) {
            return Ok(None);
        }
        let mut updated = self.bookings[idx].clone();
        updated.status = BookingStatus::Cancelled;
        let freed = CapacityFreed {
            resource_id: updated.resource_id,
            interval: updated.interval,
        };
        self.bookings.set(idx, updated);
        Ok(Some(freed))
    }

    /// The listing operation: the active bookings matching the optional
    /// filters — a resource and a window the interval must overlap — sorted
    /// by start time ascending. Cancelled bookings never appear here.
    pub fn get_bookings(&self, resource_id: Option<u64>, window: Option<Interval>) -> (r: Vec<
        Booking,
    >)
        ensures
            sorted_by_start(r@),
            r@.to_multiset() == self@.filter(listing_pred(resource_id, window)).to_multiset(),
    {
        let ghost pred = listing_pred(resource_id, window);
        let mut out: Vec<Booking> = Vec::new();
        let n = self.bookings.len();
        let mut k: usize = 0;
        proof {
            assert(self@.take(0).filter(pred) =~= Seq::<Booking>::empty()) by {
                reveal(Seq::filter);
                assert(self@.take(0) =~= Seq::<Booking>::empty());
            }
        }
        while k < n
            invariant
                n == self@.len(),
                k <= n,
                pred == listing_pred(resource_id, window),
                sorted_by_start(out@),
                out@.to_multiset() == self@.take(k as int).filter(pred).to_multiset(),
            decreases n - k,
        {
            let b = &self.bookings[k];
            let resource_matched = match resource_id {
                Some(rid) => b.resource_id == rid,
                None => true,
            };
            let window_matched = match window {
                Some(w) => b.interval.overlaps(&w),
                None => true,
            };
            if matches!(b.status, BookingStatus::Active) && resource_matched && window_matched {
                insert_by_start(&mut out, b.clone());
            }
            proof {
                assert(self@.take(k + 1 as int) =~= self@.take(k as int).push(self@[k as int]));
                self@.take(k as int).lemma_filter_push(self@[k as int], pred);
                if pred(self@[k as int]) {
                    vstd::seq_lib::to_multiset_build::<Booking>(
                        self@.take(k as int).filter(pred),
                        self@[k as int],
                    );
                }
            }
            k = k + 1;
        }
        proof {
            assert(self@.take(n as int) =~= self@);
        }
        out
    }

    /// The full audit trail: every booking ever created, cancelled ones
    /// included, in creation order. This is not the listing operation;
    /// cancelled bookings are retained for audit only.
    pub fn audit_bookings(&self) -> (r: Vec<Booking>)
        ensures
            r@ == self@,
    {
        let mut out: Vec<Booking> = Vec::new();
        let n = self.bookings.len();
        let mut k: usize = 0;
        while k < n
            invariant
                n == self@.len(),
                k <= n,
                out@ == self@.take(k as int),
            decreases n - k,
        {
            out.push(self.bookings[k].clone());
            proof {
                assert(self@.take(k + 1 as int) =~= self@.take(k as int).push(self@[k as int]));
            }
            k = k + 1;
        }
        proof {
            assert(self@.take(n as int) =~= self@);
        }
        out
    }

    /// The active bookings of `resource_id` whose intervals overlap `window`,
    /// sorted by start time ascending.
    pub fn get_resource_availability(&self, resource_id: u64, window: &Interval) -> (r: Vec<
        Booking,
    >)
        ensures
            sorted_by_start(r@),
            r@.to_multiset() == self@.filter(window_pred(resource_id, *window)).to_multiset(),
    {
        let ghost pred = window_pred(resource_id, *window);
        let mut out: Vec<Booking> = Vec::new();
        let n = self.bookings.len();
        let mut k: usize = 0;
        proof {
            assert(self@.take(0).filter(pred) =~= Seq::<Booking>::empty()) by {
                reveal(Seq::filter);
                assert(self@.take(0) =~= Seq::<Booking>::empty());
            }
        }
        while k < n
            invariant
                n == self@.len(),
                k <= n,
                pred == window_pred(resource_id, *window),
                sorted_by_start(out@),
                out@.to_multiset() == self@.take(k as int).filter(pred).to_multiset(),
            decreases n - k,
        {
            let b = &self.bookings[k];
            let matched = matches!(b.status, BookingStatus::Active) && b.resource_id == resource_id
                && b.interval.overlaps(window);
            if matched {
                insert_by_start(&mut out, b.clone());
            }
            proof {
                assert(self@.take(k + 1 as int) =~= self@.take(k as int).push(self@[k as int]));
                self@.take(k as int).lemma_filter_push(self@[k as int], pred);
                if pred(self@[k as int]) {
                    vstd::seq_lib::to_multiset_build::<Booking>(
                        self@.take(k as int).filter(pred),
                        self@[k as int],
                    );
                }
            }
            k = k + 1;
        }
        proof {
            assert(self@.take(n as int) =~= self@);
        }
        out
    }

    /// Availability projection: the busy intervals of `resource_id` within
    /// `window`, i.e. the intervals of the active bookings overlapping it,
    /// sorted by start time ascending. A pure read with no side effects.
    pub fn busy(&self, resource_id: u64, window: &Interval) -> (r: Vec<Interval>)
        ensures
            intervals_sorted(r@),
            r@.to_multiset() == self@.filter(window_pred(resource_id, *window)).map_values(
                interval_of(),
            ).to_multiset(),
    {
        let ghost pred = window_pred(resource_id, *window);
        let ghost f = interval_of();
        let mut out: Vec<Interval> = Vec::new();
        let n = self.bookings.len();
        let mut k: usize = 0;
        proof {
            assert(self@.take(0).filter(pred) =~= Seq::<Booking>::empty()) by {
                reveal(Seq::filter);
                assert(self@.take(0) =~= Seq::<Booking>::empty());
            }
            assert(Seq::<Booking>::empty().map_values(f) =~= Seq::<Interval>::empty());
        }
        while k < n
            invariant
                n == self@.len(),
                k <= n,
                pred == window_pred(resource_id, *window),
                f == interval_of(),
                intervals_sorted(out@),
                out@.to_multiset() == self@.take(k as int).filter(pred).map_values(
                    f,
                ).to_multiset(),
            decreases n - k,
        {
            let b = &self.bookings[k];
            let matched = matches!(b.status, BookingStatus::Active) && b.resource_id == resource_id
                && b.interval.overlaps(window);
            if matched {
                insert_interval_by_start(&mut out, b.interval);
            }
            proof {
                assert(self@.take(k + 1 as int) =~= self@.take(k as int).push(self@[k as int]));
                self@.take(k as int).lemma_filter_push(self@[k as int], pred);
                if pred(self@[k as int]) {
                    let fs = self@.take(k as int).filter(pred);
                    assert(fs.push(self@[k as int]).map_values(f) =~= fs.map_values(f).push(
                        f(self@[k as int]),
                    ));
                    vstd::seq_lib::to_multiset_build::<Interval>(
                        fs.map_values(f),
                        f(self@[k as int]),
                    );
                }
            }
            k = k + 1;
        }
        proof {
            assert(self@.take(n as int) =~= self@);
        }
        out
    }
}

/// Whatever a filtering keeps was already in the sequence.
proof fn lemma_filter_contained(s: Seq<Booking>, pred: spec_fn(Booking) -> bool, x: Booking)
    requires
        s.filter(pred).contains(x),
    ensures
        s.contains(x),
    decreases s.len(),
{
    reveal(Seq::filter);
    if s.len() > 0 {
        let rest = s.drop_last();
        if pred(s.last()) && x == s.last() {
            assert(s[s.len() - 1] == x);
        } else {
            assert(rest.filter(pred).contains(x));
            lemma_filter_contained(rest, pred, x);
            let j = choose|j: int| 0 <= j < rest.len() && rest[j] == x;
            assert(s[j] == x);
        }
    }
}

/// The no-overlap invariant, readable at any instant: any two distinct
/// active bookings on one resource claim non-overlapping intervals.
pub proof fn lemma_active_bookings_disjoint(l: BookingLedger, i: int, j: int)
    requires
        l.wf(),
        0 <= i < l@.len(),
        0 <= j < l@.len(),
        i != j,
        l@[i].is_active(),
        l@[j].is_active(),
        l@[i].resource_id == l@[j].resource_id,
    ensures
        !l@[i].interval.overlaps_spec(l@[j].interval),
{
}

/// Mutual exclusion of overlapping creates: once one of two requests with
/// mutually overlapping intervals on one resource has committed — leaving the
/// ledger with its fresh active booking appended — the other request finds a
/// conflict, so `create_booking` refuses it with `Conflict` whatever the
/// arrival order was.
pub proof fn lemma_create_excludes_overlap(
    s0: Seq<Booking>,
    b: Booking,
    resource_id: u64,
    iv: Interval,
)
    requires
        b.is_active(),
        b.resource_id == resource_id,
        b.interval.overlaps_spec(iv),
    ensures
        has_conflict(s0.push(b), resource_id, iv),
{
    let s1 = s0.push(b);
    assert(s1[s0.len() as int] == b);
}

/// Round trip, creation side: a listing taken after a successful create —
/// over the same resource and a window the new interval overlaps — contains
/// the created booking. `r` is constrained exactly as
/// `get_resource_availability` constrains its result.
pub proof fn lemma_created_booking_listed(
    s0: Seq<Booking>,
    b: Booking,
    resource_id: u64,
    window: Interval,
    r: Seq<Booking>,
)
    requires
        b.is_active(),
        b.resource_id == resource_id,
        b.interval.overlaps_spec(window),
        r.to_multiset() == s0.push(b).filter(window_pred(resource_id, window)).to_multiset(),
    ensures
        r.contains(b),
{
    broadcast use vstd::seq_lib::group_to_multiset_ensures;
    broadcast use vstd::multiset::group_multiset_axioms;

    let pred = window_pred(resource_id, window);
    s0.lemma_filter_push(b, pred);
    assert(pred(b));
    assert(s0.push(b).filter(pred) == s0.filter(pred).push(b));
    assert(s0.filter(pred).push(b).to_multiset().count(b) > 0);
    assert(r.to_multiset().count(b) > 0);
}

/// Round trip, cancellation side: a listing taken after a booking was
/// cancelled no longer contains it — the active booking is gone from every
/// window. `r` is constrained exactly as `get_resource_availability`
/// constrains its result.
pub proof fn lemma_cancelled_booking_not_listed(
    s0: Seq<Booking>,
    i: int,
    resource_id: u64,
    window: Interval,
    r: Seq<Booking>,
)
    requires
        ids_assigned(s0),
        s0.len() <= u64::MAX,
        0 <= i < s0.len(),
        s0[i].is_active(),
        r.to_multiset() == s0.update(i, cancelled_of(s0[i])).filter(
            window_pred(resource_id, window),
        ).to_multiset(),
    ensures
        !r.contains(s0[i]),
{
    broadcast use vstd::seq_lib::group_to_multiset_ensures;
    broadcast use vstd::multiset::group_multiset_axioms;

    let b = s0[i];
    let s1 = s0.update(i, cancelled_of(b));
    let pred = window_pred(resource_id, window);
    assert forall|j: int| 0 <= j < s1.len() implies s1[j] != b by {
        if j == i {
            assert(s1[j].status == BookingStatus::Cancelled);
        } else {
            assert(s1[j] == s0[j]);
            assert(s0[j].id == j as u64);
            assert(b.id == i as u64);
            if s1[j] == b {
                assert(j as u64 == i as u64);
                assert(j == i);
            }
        }
    }
    if r.contains(b) {
        assert(r.to_multiset().count(b) > 0);
        assert(s1.filter(pred).contains(b));
        lemma_filter_contained(s1, pred, b);
        let j = choose|j: int| 0 <= j < s1.len() && s1[j] == b;
        assert(false);
    }
}

} // verus!
