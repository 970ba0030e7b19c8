//! Core of a resource-booking service: a ledger of exclusive, half-open
//! time-interval claims per resource, a FIFO waiting list for unmet demand,
//! and a promotion engine that notifies waiting requesters when their
//! preferred window becomes free.
//!
//! The core works on plain values (integer timestamps and identifiers) and is
//! fully verified; transport, persistence and authentication live with the
//! surrounding collaborators, which hand in already-typed requests.

pub mod interval;
pub mod booking;
pub mod ledger;
pub mod waitlist;
pub mod promotion;
pub mod auth;
