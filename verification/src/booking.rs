//! Booking records and the typed outcomes of the booking operations.

use vstd::prelude::*;
use crate::interval::Interval;

verus! {

/// Lifecycle of a booking. A booking is created `Active` and can only move to
/// `Cancelled`, one way; cancelled bookings are kept for audit but no longer
/// count for overlap checks.
#[derive(Clone, Copy, PartialEq, Eq, Structural, Debug)]
pub enum BookingStatus {
    Active,
    Cancelled,
}

/// One confirmed, exclusive claim on a resource for a half-open time interval.
#[derive(Debug)]
pub struct Booking {
    /// Unique, assigned by the ledger on creation, immutable.
    pub id: u64,
    /// The resource the claim is on, immutable.
    pub resource_id: u64,
    /// Identity of the requester, immutable.
    pub owner_id: u64,
    /// The claimed half-open interval `[start, end)`.
    pub interval: Interval,
    /// Optional free text with no meaning to the core.
    pub note: Option<String>,
    pub status: BookingStatus,
}

impl Booking {
    pub open spec fn is_active(self) -> bool {
        self.status == BookingStatus::Active
    }
}

impl Clone for Booking {
    fn clone(&self) -> (r: Booking)
        ensures
            r == *self,
    {
        let note = match &self.note {
            Some(text) => Some(text.clone()),
            None => None,
        };
        Booking {
            id: self.id,
            resource_id: self.resource_id,
            owner_id: self.owner_id,
            interval: self.interval,
            note,
            status: self.status,
        }
    }
}

/// Why a booking operation was refused. Every failure is returned as a typed
/// result so the caller can tell the kinds apart; none is swallowed.
#[derive(Clone, Copy, PartialEq, Eq, Structural, Debug)]
pub enum BookingError {
    /// The requested interval is malformed: `end <= start`.
    InvalidRange,
    /// The requested interval overlaps an existing active booking.
    Conflict,
    /// The referenced booking or entry does not exist, or is not visible to
    /// this owner.
    NotFound,
    /// The referenced booking exists but the caller lacks rights to it.
    Forbidden,
    /// The persistence collaborator failed; the operation left no partial
    /// state behind and is safe to retry. The verified core never raises
    /// this itself; the surrounding storage layer maps its failures to it.
    StorageUnavailable,
}

/// Raised when a genuine `Active -> Cancelled` transition frees capacity on a
/// resource; the promotion engine consumes it to re-evaluate the waiting list.
#[derive(Clone, Copy, PartialEq, Eq, Structural, Debug)]
pub struct CapacityFreed {
    pub resource_id: u64,
    pub interval: Interval,
}

} // verus!
