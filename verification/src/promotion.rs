//! The promotion engine. When a cancellation frees capacity on a resource,
//! it scans that resource's pending waitlist entries in FIFO order and
//! notifies every entry whose preferred window is now fully free.
//!
//! Eligibility is judged against the current active bookings over the
//! entry's own preferred interval, not by containment in the freed window:
//! a freed slot may satisfy an entry whose preferred window only partially
//! intersects it, and several freed slots may jointly satisfy one entry.
//! Promotion only notifies; it never creates a booking — the requester must
//! confirm with a separate, explicit create call. Entries are evaluated
//! independently, each transition applied on its own, so no single entry can
//! hold up the rest of the scan.

use vstd::prelude::*;
use vstd::pervasive::VecAdditionalExecFns;
use crate::booking::{Booking, CapacityFreed};
use crate::interval::Interval;
use crate::ledger::{has_conflict, BookingLedger};
use crate::waitlist::{WaitlistEntry, WaitlistQueue, WaitlistStatus};

verus! {

/// `e` is due for promotion: pending, on the freed resource, with a
/// non-empty preferred window that is wholly free of active bookings. An
/// empty or reversed window can never be booked, so it is never notified.
pub open spec fn promotable(e: WaitlistEntry, bookings: Seq<Booking>, resource_id: u64) -> bool {
    e.resource_id == resource_id && e.is_pending() && e.preferred().is_valid() && !has_conflict(
        bookings,
        resource_id,
        e.preferred(),
    )
}

/// `promotable` as a predicate value shared by the promotion contracts.
pub open spec fn promotable_pred(bookings: Seq<Booking>, resource_id: u64) -> spec_fn(
    WaitlistEntry,
) -> bool {
    |e: WaitlistEntry| promotable(e, bookings, resource_id)
}

/// `e` with its status moved to `Notified`; every other field is kept.
pub open spec fn notified_of(e: WaitlistEntry) -> WaitlistEntry {
    WaitlistEntry { status: WaitlistStatus::Notified, ..e }
}

/// `notified_of` as a function value shared by the promotion contracts.
pub open spec fn notify_fn() -> spec_fn(WaitlistEntry) -> WaitlistEntry {
    |e: WaitlistEntry| notified_of(e)
}

/// React to freed capacity: notify, in creation order, every pending entry
/// of the freed resource whose preferred window is now fully free.
///
/// Returns the newly notified entries, oldest first — promotion fairness:
/// the returned ids are strictly ascending, and ids equal creation order.
/// Every other entry is left untouched.
pub fn check_and_notify_waitlist(
    ledger: &BookingLedger,
    queue: &mut WaitlistQueue,
    event: &CapacityFreed,
) -> (r: Vec<WaitlistEntry>)
    requires
        old(queue).wf(),
    ensures
        final(queue).wf(),
        final(queue)@.len() == old(queue)@.len(),
        forall|k: int|
            0 <= k < old(queue)@.len() ==> final(queue)@[k] == (if promotable(
                old(queue)@[k],
                ledger@,
                event.resource_id,
            ) {
                notified_of(old(queue)@[k])
            } else {
                old(queue)@[k]
            }),
        r@ == old(queue)@.filter(promotable_pred(ledger@, event.resource_id)).map_values(
            notify_fn(),
        ),
        forall|i: int, j: int| #![trigger r@[i], r@[j]] 0 <= i < j < r@.len() ==> r@[i].id < r@[j].id,
{
    let rid = event.resource_id;
    let ghost pred = promotable_pred(ledger@, rid);
    let ghost f = notify_fn();
    let ghost pre = queue@;
    proof {
        queue.entries_view();
    }
    let mut out: Vec<WaitlistEntry> = Vec::new();
    let n = queue.entries.len();
    let mut k: usize = 0;
    proof {
        assert(pre.take(0).filter(pred) =~= Seq::<WaitlistEntry>::empty()) by {
            reveal(Seq::filter);
            assert(pre.take(0) =~= Seq::<WaitlistEntry>::empty());
        }
        assert(Seq::<WaitlistEntry>::empty().map_values(f) =~= Seq::<WaitlistEntry>::empty());
    }
    while k < n
        invariant
            n == pre.len(),
            k <= n,
            queue@.len() == pre.len(),
            queue.wf(),
            pred == promotable_pred(ledger@, rid),
            f == notify_fn(),
            forall|m: int| k <= m < n ==> queue@[m] == pre[m],
            forall|m: int|
                0 <= m < k ==> queue@[m] == (if promotable(pre[m], ledger@, rid) {
                    notified_of(pre[m])
                } else {
                    pre[m]
                }),
            out@ == pre.take(k as int).filter(pred).map_values(f),
            forall|i: int| 0 <= i < out@.len() ==> (#[trigger] out@[i]).id < k as u64,
            forall|i: int, j: int|
                #![trigger out@[i], out@[j]]
                0 <= i < j < out@.len() ==> out@[i].id < out@[j].id,
        decreases n - k,
    {
        proof {
            queue.entries_view();
        }
        let pending = matches!(queue.entries[k].status, WaitlistStatus::Pending);
        let entry_rid = queue.entries[k].resource_id;
        let window = Interval {
            start: queue.entries[k].preferred_start,
            end: queue.entries[k].preferred_end,
        };
        if pending && entry_rid == rid && window.start < window.end && !ledger.overlaps(
            rid,
            &window,
        ) {
            let mut updated = queue.entries[k].clone();
            updated.status = WaitlistStatus::Notified;
            let reported = updated.clone();
            queue.entries.set(k, updated);
            proof {
                queue.entries_view();
            }
            out.push(reported);
        }
        proof {
            assert(pre.take(k + 1 as int) =~= pre.take(k as int).push(pre[k as int]));
            pre.take(k as int).lemma_filter_push(pre[k as int], pred);
            if pred(pre[k as int]) {
                let fs = pre.take(k as int).filter(pred);
                assert(fs.push(pre[k as int]).map_values(f) =~= fs.map_values(f).push(
                    f(pre[k as int]),
                ));
            }
        }
        k = k + 1;
    }
    proof {
        assert(pre.take(n as int) =~= pre);
    }
    out
}

} // verus!
