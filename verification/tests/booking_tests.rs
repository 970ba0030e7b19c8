use booking_system::booking::{BookingError, BookingStatus};
use booking_system::interval::Interval;
use booking_system::ledger::BookingLedger;

#[test]
fn create_assigns_ids_and_fields() {
    let mut ledger = BookingLedger::new();
    let b = ledger
        .create_booking(5, 100, 200, Some("standup".to_string()), 42)
        .unwrap();
    assert_eq!(b.id, 0);
    assert_eq!(b.resource_id, 5);
    assert_eq!(b.owner_id, 42);
    assert_eq!(b.interval.start, 100);
    assert_eq!(b.interval.end, 200);
    assert_eq!(b.note, Some("standup".to_string()));
    assert!(matches!(b.status, BookingStatus::Active));
    let b2 = ledger.create_booking(5, 200, 300, None, 42).unwrap();
    assert_eq!(b2.id, 1);
}

#[test]
fn invalid_range_rejected() {
    let mut ledger = BookingLedger::new();
    let r = ledger.create_booking(1, 200, 100, None, 1);
    assert_eq!(r.unwrap_err(), BookingError::InvalidRange);
    let r = ledger.create_booking(1, 100, 100, None, 1);
    assert_eq!(r.unwrap_err(), BookingError::InvalidRange);
    assert!(ledger.get_bookings(None, None).is_empty());
}

#[test]
fn back_to_back_bookings_succeed() {
    // [10:00,11:00) then [11:00,12:00) on the same resource: both succeed.
    let mut ledger = BookingLedger::new();
    assert!(ledger.create_booking(1, 36000, 39600, None, 1).is_ok());
    assert!(ledger.create_booking(1, 39600, 43200, None, 2).is_ok());
}

#[test]
fn overlapping_creates_exactly_one_succeeds() {
    // Whichever of the two overlapping requests commits first, the other
    // one is refused with Conflict.
    let mut ledger = BookingLedger::new();
    assert!(ledger.create_booking(1, 100, 200, None, 1).is_ok());
    let r = ledger.create_booking(1, 150, 250, None, 2);
    assert_eq!(r.unwrap_err(), BookingError::Conflict);

    let mut ledger = BookingLedger::new();
    assert!(ledger.create_booking(1, 150, 250, None, 2).is_ok());
    let r = ledger.create_booking(1, 100, 200, None, 1);
    assert_eq!(r.unwrap_err(), BookingError::Conflict);
}

#[test]
fn overlap_needs_same_resource() {
    let mut ledger = BookingLedger::new();
    assert!(ledger.create_booking(1, 100, 200, None, 1).is_ok());
    assert!(ledger.create_booking(2, 100, 200, None, 1).is_ok());
}

#[test]
fn cancelled_booking_frees_its_window() {
    let mut ledger = BookingLedger::new();
    let b = ledger.create_booking(1, 100, 200, None, 1).unwrap();
    ledger.cancel_booking(b.id, 1, false).unwrap();
    assert!(ledger.create_booking(1, 100, 200, None, 2).is_ok());
}

#[test]
fn cancel_emits_capacity_freed_once() {
    let mut ledger = BookingLedger::new();
    let b = ledger.create_booking(3, 100, 200, None, 9).unwrap();
    let freed = ledger.cancel_booking(b.id, 9, false).unwrap();
    let event = freed.expect("a genuine cancellation frees capacity");
    assert_eq!(event.resource_id, 3);
    assert_eq!(event.interval, Interval { start: 100, end: 200 });
}

#[test]
fn cancel_is_idempotent() {
    // Cancelling an already-cancelled booking succeeds with no new event
    // and no change to what is busy.
    let mut ledger = BookingLedger::new();
    let b = ledger.create_booking(1, 100, 200, None, 7).unwrap();
    assert!(ledger.cancel_booking(b.id, 7, false).unwrap().is_some());
    let busy_before = ledger.busy(1, &Interval { start: 0, end: 1000 });
    let again = ledger.cancel_booking(b.id, 7, false).unwrap();
    assert!(again.is_none());
    let busy_after = ledger.busy(1, &Interval { start: 0, end: 1000 });
    assert_eq!(busy_before, busy_after);
}

#[test]
fn cancel_not_found() {
    let mut ledger = BookingLedger::new();
    let r = ledger.cancel_booking(0, 1, false);
    assert_eq!(r.unwrap_err(), BookingError::NotFound);
}

#[test]
fn cancel_forbidden_for_other_owner() {
    let mut ledger = BookingLedger::new();
    let b = ledger.create_booking(1, 100, 200, None, 7).unwrap();
    let r = ledger.cancel_booking(b.id, 8, false);
    assert_eq!(r.unwrap_err(), BookingError::Forbidden);
}

#[test]
fn cancel_admin_override() {
    let mut ledger = BookingLedger::new();
    let b = ledger.create_booking(1, 100, 200, None, 7).unwrap();
    assert!(ledger.cancel_booking(b.id, 8, true).unwrap().is_some());
}

#[test]
fn round_trip_create_then_list() {
    // A created booking shows up in a listing over its window; after
    // cancellation it is gone.
    let mut ledger = BookingLedger::new();
    let b = ledger.create_booking(1, 100, 200, None, 7).unwrap();
    let window = Interval { start: 0, end: 1000 };
    let listed = ledger.get_resource_availability(1, &window);
    assert_eq!(listed.len(), 1);
    assert_eq!(listed[0].id, b.id);
    assert!(matches!(listed[0].status, BookingStatus::Active));

    ledger.cancel_booking(b.id, 7, false).unwrap();
    let listed = ledger.get_resource_availability(1, &window);
    assert!(listed.is_empty());
}

#[test]
fn listing_is_sorted_by_start_and_windowed() {
    let mut ledger = BookingLedger::new();
    ledger.create_booking(1, 300, 400, None, 1).unwrap();
    ledger.create_booking(1, 100, 200, None, 2).unwrap();
    ledger.create_booking(1, 500, 600, None, 3).unwrap();
    ledger.create_booking(2, 100, 200, None, 4).unwrap();
    let listed = ledger.get_resource_availability(1, &Interval { start: 0, end: 450 });
    let starts: Vec<i64> = listed.iter().map(|b| b.interval.start).collect();
    assert_eq!(starts, vec![100, 300]);
}

#[test]
fn window_boundaries_are_half_open() {
    let mut ledger = BookingLedger::new();
    ledger.create_booking(1, 100, 200, None, 1).unwrap();
    // A window that only touches the booking's end does not intersect it.
    assert!(ledger.get_resource_availability(1, &Interval { start: 200, end: 300 }).is_empty());
    // One that reaches one unit in does.
    assert_eq!(ledger.get_resource_availability(1, &Interval { start: 199, end: 300 }).len(), 1);
}

#[test]
fn busy_reports_sorted_intervals() {
    let mut ledger = BookingLedger::new();
    ledger.create_booking(1, 300, 400, None, 1).unwrap();
    ledger.create_booking(1, 100, 200, None, 2).unwrap();
    let busy = ledger.busy(1, &Interval { start: 0, end: 1000 });
    assert_eq!(
        busy,
        vec![Interval { start: 100, end: 200 }, Interval { start: 300, end: 400 }]
    );
}

#[test]
fn get_bookings_lists_active_only_sorted() {
    let mut ledger = BookingLedger::new();
    let b = ledger.create_booking(1, 300, 400, None, 1).unwrap();
    ledger.create_booking(1, 100, 200, None, 2).unwrap();
    ledger.create_booking(2, 500, 600, None, 3).unwrap();
    ledger.cancel_booking(b.id, 1, false).unwrap();
    // No filters: every active booking, sorted by start, cancelled excluded.
    let listed = ledger.get_bookings(None, None);
    let starts: Vec<i64> = listed.iter().map(|b| b.interval.start).collect();
    assert_eq!(starts, vec![100, 500]);
    // Resource filter alone.
    let listed = ledger.get_bookings(Some(2), None);
    assert_eq!(listed.len(), 1);
    assert_eq!(listed[0].resource_id, 2);
    // Window filter alone.
    let listed = ledger.get_bookings(None, Some(Interval { start: 0, end: 250 }));
    assert_eq!(listed.len(), 1);
    assert_eq!(listed[0].interval.start, 100);
    // Both filters.
    let listed = ledger.get_bookings(Some(1), Some(Interval { start: 0, end: 1000 }));
    assert_eq!(listed.len(), 1);
    assert_eq!(listed[0].interval.start, 100);
}

#[test]
fn audit_trail_keeps_cancelled() {
    let mut ledger = BookingLedger::new();
    let b = ledger.create_booking(1, 100, 200, None, 1).unwrap();
    ledger.create_booking(1, 200, 300, None, 2).unwrap();
    ledger.cancel_booking(b.id, 1, false).unwrap();
    let all = ledger.audit_bookings();
    assert_eq!(all.len(), 2);
    assert!(matches!(all[0].status, BookingStatus::Cancelled));
    assert!(matches!(all[1].status, BookingStatus::Active));
    // The listing operation no longer shows the cancelled one.
    assert_eq!(ledger.get_bookings(None, None).len(), 1);
}
