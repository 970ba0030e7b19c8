//! The waiting list: a per-resource FIFO of pending requests for windows
//! that were unavailable at request time. Entries are never destroyed;
//! terminal states are retained for audit.

use vstd::prelude::*;
use vstd::pervasive::VecAdditionalExecFns;
use crate::booking::BookingError;
use crate::interval::Interval;

verus! {

/// Lifecycle of a waitlist entry. Only `Pending` may move to `Notified`;
/// only `Notified` may move to `Booked` or `Expired`; any non-terminal state
/// may move to `Cancelled`.
#[derive(Clone, Copy, PartialEq, Eq, Structural, Debug)]
pub enum WaitlistStatus {
    Pending,
    Notified,
    Booked,
    Expired,
    Cancelled,
}

/// The legal status transitions.
pub open spec fn status_can_step(from: WaitlistStatus, to: WaitlistStatus) -> bool {
    ||| from == WaitlistStatus::Pending && to == WaitlistStatus::Notified
    ||| from == WaitlistStatus::Notified && (to == WaitlistStatus::Booked || to
        == WaitlistStatus::Expired)
    ||| (from == WaitlistStatus::Pending || from == WaitlistStatus::Notified) && to
        == WaitlistStatus::Cancelled
}

/// Unmet demand for a resource and time window.
#[derive(Debug)]
pub struct WaitlistEntry {
    /// Unique, assigned by the queue on creation, immutable.
    pub id: u64,
    /// Identity of the requester, immutable.
    pub user_id: u64,
    pub resource_id: u64,
    /// Start of the preferred half-open window `[preferred_start, preferred_end)`.
    pub preferred_start: i64,
    /// End of the preferred window, exclusive.
    pub preferred_end: i64,
    pub status: WaitlistStatus,
    /// Optional free text with no meaning to the core.
    pub note: Option<String>,
    /// When the entry was created; entries are appended in creation order,
    /// which defines the FIFO fairness order.
    pub created_at: i64,
}

impl WaitlistEntry {
    /// The preferred window as an interval value.
    pub open spec fn preferred(self) -> Interval {
        Interval { start: self.preferred_start, end: self.preferred_end }
    }

    pub open spec fn is_pending(self) -> bool {
        self.status == WaitlistStatus::Pending
    }
}

impl Clone for WaitlistEntry {
    fn clone(&self) -> (r: WaitlistEntry)
        ensures
            r == *self,
    {
        let note = match &self.note {
            Some(text) => Some(text.clone()),
            None => None,
        };
        WaitlistEntry {
            id: self.id,
            user_id: self.user_id,
            resource_id: self.resource_id,
            preferred_start: self.preferred_start,
            preferred_end: self.preferred_end,
            status: self.status,
            note,
            created_at: self.created_at,
        }
    }
}

/// The typed payload of a waitlist request, as the surrounding collaborator
/// hands it in: the resource, the preferred window and an optional note.
#[derive(Debug)]
pub struct CreateWaitlistRequest {
    pub resource_id: u64,
    pub preferred_start: i64,
    pub preferred_end: i64,
    pub note: Option<String>,
}

/// Every entry is stored at the index equal to its id, so ids are unique,
/// stable, and ascending in creation order.
pub open spec fn entry_ids_assigned(s: Seq<WaitlistEntry>) -> bool {
    forall|k: int| 0 <= k < s.len() ==> (#[trigger] s[k]).id == k as u64
}

/// Creation timestamps never decrease along the queue, so storage order,
/// id order and creation-time order all agree: the FIFO order.
pub open spec fn created_at_ordered(s: Seq<WaitlistEntry>) -> bool {
    forall|i: int, j: int|
        #![trigger s[i], s[j]]
        0 <= i < j < s.len() ==> s[i].created_at <= s[j].created_at
}

/// The entry a new waitlist request appends: `Pending`, with the queue's
/// fresh id.
pub open spec fn fresh_entry(
    id: u64,
    user_id: u64,
    request: CreateWaitlistRequest,
    created_at: i64,
) -> WaitlistEntry {
    WaitlistEntry {
        id,
        user_id,
        resource_id: request.resource_id,
        preferred_start: request.preferred_start,
        preferred_end: request.preferred_end,
        status: WaitlistStatus::Pending,
        note: request.note,
        created_at,
    }
}

/// `e` with its status moved to `Cancelled`; every other field is kept.
pub open spec fn entry_cancelled_of(e: WaitlistEntry) -> WaitlistEntry {
    WaitlistEntry { status: WaitlistStatus::Cancelled, ..e }
}

/// The pending entries of `resource_id`, as a predicate value shared by the
/// listing contracts.
pub open spec fn pending_for_resource(resource_id: u64) -> spec_fn(WaitlistEntry) -> bool {
    |e: WaitlistEntry| e.is_pending() && e.resource_id == resource_id
}

/// The pending entries of `user_id`, as a predicate value shared by the
/// listing contracts.
pub open spec fn pending_for_user(user_id: u64) -> spec_fn(WaitlistEntry) -> bool {
    |e: WaitlistEntry| e.is_pending() && e.user_id == user_id
}

pub struct WaitlistQueue {
    pub(crate) entries: Vec<WaitlistEntry>,
}

impl View for WaitlistQueue {
    type V = Seq<WaitlistEntry>;

    closed spec fn view(&self) -> Seq<WaitlistEntry> {
        self.entries@
    }
}

impl WaitlistQueue {
    /// Well-formedness: ids equal storage positions and creation timestamps
    /// never decrease along the queue, so storage order, id order and
    /// creation-time order agree: they are the FIFO order.
    pub open spec fn wf(self) -> bool {
        entry_ids_assigned(self@) && created_at_ordered(self@)
    }

    /// The queue's view is its stored entries, for the crate's own modules.
    pub(crate) proof fn entries_view(&self)
        ensures
            self@ == self.entries@,
    {
    }

    pub fn new() -> (r: WaitlistQueue)
        ensures
            r.wf(),
            r@ === Seq::<WaitlistEntry>::empty(),
    {
        WaitlistQueue { entries: Vec::new() }
    }

    /// When the queue is non-empty, the creation timestamp of its newest
    /// entry; the clock collaborator reads it to keep enqueue timestamps
    /// monotone.
    pub fn last_created_at(&self) -> (r: Option<i64>)
        ensures
            self@.len() == 0 ==> r is None,
            self@.len() > 0 ==> r == Some(self@.last().created_at),
    {
        let n = self.entries.len();
        if n == 0 {
            None
        } else {
            Some(self.entries[n - 1].created_at)
        }
    }

    /// Enqueue a request. Always succeeds: no capacity check happens at
    /// enqueue time. The new entry is appended `Pending` with a timestamp no
    /// older than the newest stored one, so the queue stays ordered by
    /// creation time.
    pub fn create_waitlist_entry(
        &mut self,
        user_id: u64,
        request: CreateWaitlistRequest,
        created_at: i64,
    ) -> (r: WaitlistEntry)
        requires
            old(self).wf(),
            old(self)@.len() > 0 ==> created_at >= old(self)@.last().created_at,
        ensures
            final(self).wf(),
            r == fresh_entry(old(self)@.len() as u64, user_id, request, created_at),
            final(self)@ == old(self)@.push(r),
    {
        let id = self.entries.len() as u64;
        let entry = WaitlistEntry {
            id,
            user_id,
            resource_id: request.resource_id,
            preferred_start: request.preferred_start,
            preferred_end: request.preferred_end,
            status: WaitlistStatus::Pending,
            note: request.note,
            created_at,
        };
        let stored = entry.clone();
        self.entries.push(stored);
        entry
    }

    /// Cancel a waitlist entry. Succeeds only for a `Pending` or `Notified`
    /// entry of the calling owner; every other case — no such entry, another
    /// owner's entry, or an entry already in a terminal state — is reported
    /// as `NotFound`, deliberately not telling "does not exist" apart from
    /// "exists but not yours".
    pub fn cancel_waitlist_entry(&mut self, entry_id: u64, user_id: u64) -> (r: Result<
        (),
        BookingError,
    >)
        requires
            old(self).wf(),
        ensures
            final(self).wf(),
            entry_id < old(self)@.len() && old(self)@[entry_id as int].user_id == user_id
                && status_can_step(
                old(self)@[entry_id as int].status,
                WaitlistStatus::Cancelled,
            ) ==> r == Ok::<(), BookingError>(()) && final(self)@ == old(self)@.update(
                entry_id as int,
                entry_cancelled_of(old(self)@[entry_id as int]),
            ),
            !(entry_id < old(self)@.len() && old(self)@[entry_id as int].user_id == user_id
                && status_can_step(old(self)@[entry_id as int].status, WaitlistStatus::Cancelled))
                ==> r == Err::<(), BookingError>(BookingError::NotFound) && final(self)@ == old(
                self,
            )@,
    {
        let n = self.entries.len();
        if entry_id >= n as u64 {
            return Err(BookingError::NotFound);
        }
        let idx: usize = entry_id as usize;
        if self.entries[idx].user_id != user_id {
            return Err(BookingError::NotFound);
        }
        let cancellable = matches!(
            self.entries[idx].status,
            WaitlistStatus::Pending | WaitlistStatus::Notified
        );
        if !cancellable {
            return Err(BookingError::NotFound);
        }
        let mut updated = self.entries[idx].clone();
        updated.status = WaitlistStatus::Cancelled;
        self.entries.set(idx, updated);
        Ok(())
    }

    /// The pending entries of `resource_id`, in creation order.
    pub fn get_resource_waitlist(&self, resource_id: u64) -> (r: Vec<WaitlistEntry>)
        ensures
            r@ == self@.filter(pending_for_resource(resource_id)),
    {
        let ghost pred = pending_for_resource(resource_id);
        let mut out: Vec<WaitlistEntry> = Vec::new();
        let n = self.entries.len();
        let mut k: usize = 0;
        proof {
            assert(self@.take(0).filter(pred) =~= Seq::<WaitlistEntry>::empty()) by {
                reveal(Seq::filter);
                assert(self@.take(0) =~= Seq::<WaitlistEntry>::empty());
            }
        }
        while k < n
            invariant
                n == self@.len(),
                k <= n,
                pred == pending_for_resource(resource_id),
                out@ == self@.take(k as int).filter(pred),
            decreases n - k,
        {
            let e = &self.entries[k];
            if matches!(e.status, WaitlistStatus::Pending) && e.resource_id == resource_id {
                out.push(e.clone());
            }
            proof {
                assert(self@.take(k + 1 as int) =~= self@.take(k as int).push(self@[k as int]));
                self@.take(k as int).lemma_filter_push(self@[k as int], pred);
            }
            k = k + 1;
        }
        proof {
            assert(self@.take(n as int) =~= self@);
        }
        out
    }

    /// The pending entries of `user_id`, in creation order.
    pub fn get_user_waitlist(&self, user_id: u64) -> (r: Vec<WaitlistEntry>)
        ensures
            r@ == self@.filter(pending_for_user(user_id)),
    {
        let ghost pred = pending_for_user(user_id);
        let mut out: Vec<WaitlistEntry> = Vec::new();
        let n = self.entries.len();
        let mut k: usize = 0;
        proof {
            assert(self@.take(0).filter(pred) =~= Seq::<WaitlistEntry>::empty()) by {
                reveal(Seq::filter);
                assert(self@.take(0) =~= Seq::<WaitlistEntry>::empty());
            }
        }
        while k < n
            invariant
                n == self@.len(),
                k <= n,
                pred == pending_for_user(user_id),
                out@ == self@.take(k as int).filter(pred),
            decreases n - k,
        {
            let e = &self.entries[k];
            if matches!(e.status, WaitlistStatus::Pending) && e.user_id == user_id {
                out.push(e.clone());
            }
            proof {
                assert(self@.take(k + 1 as int) =~= self@.take(k as int).push(self@[k as int]));
                self@.take(k as int).lemma_filter_push(self@[k as int], pred);
            }
            k = k + 1;
        }
        proof {
            assert(self@.take(n as int) =~= self@);
        }
        out
    }
}

} // verus!
