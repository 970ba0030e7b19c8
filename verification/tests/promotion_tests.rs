use booking_system::booking::CapacityFreed;
use booking_system::interval::Interval;
use booking_system::ledger::BookingLedger;
use booking_system::promotion::check_and_notify_waitlist;
use booking_system::waitlist::{CreateWaitlistRequest, WaitlistQueue, WaitlistStatus};

fn request(resource_id: u64, start: i64, end: i64) -> CreateWaitlistRequest {
    CreateWaitlistRequest { resource_id, preferred_start: start, preferred_end: end, note: None }
}

// Timestamps below are seconds since midnight: 09:00 = 32400, 09:30 = 34200,
// 10:00 = 36000, 10:30 = 37800, 14:00 = 50400, 14:30 = 52200,
// 14:45 = 53100, 15:00 = 54000.

#[test]
fn promotion_is_fifo() {
    // Three pending entries created in order A, B, C, all eligible:
    // promotion notifies A before B before C.
    let ledger = BookingLedger::new();
    let mut queue = WaitlistQueue::new();
    let a = queue.create_waitlist_entry(1, request(9, 100, 200), 1000);
    let b = queue.create_waitlist_entry(2, request(9, 100, 200), 1001);
    let c = queue.create_waitlist_entry(3, request(9, 100, 200), 1002);
    let event = CapacityFreed { resource_id: 9, interval: Interval { start: 100, end: 200 } };
    let promoted = check_and_notify_waitlist(&ledger, &mut queue, &event);
    let ids: Vec<u64> = promoted.iter().map(|e| e.id).collect();
    assert_eq!(ids, vec![a.id, b.id, c.id]);
    for e in &promoted {
        assert!(matches!(e.status, WaitlistStatus::Notified));
    }
}

#[test]
fn promotion_requires_fully_free_window() {
    // An entry preferring [14:00,15:00) is not promoted while [14:30,14:45)
    // is busy, and is promoted once that booking is cancelled.
    let mut ledger = BookingLedger::new();
    let blocker = ledger.create_booking(9, 52200, 53100, None, 1).unwrap();
    let mut queue = WaitlistQueue::new();
    let w = queue.create_waitlist_entry(2, request(9, 50400, 54000), 1000);

    let some_event =
        CapacityFreed { resource_id: 9, interval: Interval { start: 0, end: 100 } };
    let promoted = check_and_notify_waitlist(&ledger, &mut queue, &some_event);
    assert!(promoted.is_empty());
    assert!(matches!(queue.get_resource_waitlist(9)[0].status, WaitlistStatus::Pending));

    let event = ledger.cancel_booking(blocker.id, 1, false).unwrap().unwrap();
    let promoted = check_and_notify_waitlist(&ledger, &mut queue, &event);
    assert_eq!(promoted.len(), 1);
    assert_eq!(promoted[0].id, w.id);
    assert!(matches!(promoted[0].status, WaitlistStatus::Notified));
}

#[test]
fn promotion_judges_against_current_state_not_freed_window() {
    // The freed window itself does not bound eligibility: an entry whose
    // preferred window merely intersects the freed slot is promoted as long
    // as its whole window is free now.
    let ledger = BookingLedger::new();
    let mut queue = WaitlistQueue::new();
    let w = queue.create_waitlist_entry(2, request(9, 100, 300), 1000);
    // The freed window covers only part of the preferred window.
    let event = CapacityFreed { resource_id: 9, interval: Interval { start: 200, end: 250 } };
    let promoted = check_and_notify_waitlist(&ledger, &mut queue, &event);
    assert_eq!(promoted.len(), 1);
    assert_eq!(promoted[0].id, w.id);
}

#[test]
fn promotion_only_notifies_and_skips_other_resources() {
    let ledger = BookingLedger::new();
    let mut queue = WaitlistQueue::new();
    queue.create_waitlist_entry(2, request(8, 100, 200), 1000);
    let event = CapacityFreed { resource_id: 9, interval: Interval { start: 0, end: 1000 } };
    let promoted = check_and_notify_waitlist(&ledger, &mut queue, &event);
    assert!(promoted.is_empty());
    // Promotion never creates a booking by itself.
    assert!(ledger.get_bookings(None, None).is_empty());
}

#[test]
fn promotion_skips_non_pending_entries() {
    let ledger = BookingLedger::new();
    let mut queue = WaitlistQueue::new();
    let a = queue.create_waitlist_entry(1, request(9, 100, 200), 1000);
    let b = queue.create_waitlist_entry(2, request(9, 100, 200), 1001);
    queue.cancel_waitlist_entry(a.id, 1).unwrap();
    let event = CapacityFreed { resource_id: 9, interval: Interval { start: 100, end: 200 } };
    let promoted = check_and_notify_waitlist(&ledger, &mut queue, &event);
    assert_eq!(promoted.len(), 1);
    assert_eq!(promoted[0].id, b.id);
    // A second scan finds nothing pending: promotion happens once.
    let promoted = check_and_notify_waitlist(&ledger, &mut queue, &event);
    assert!(promoted.is_empty());
}

#[test]
fn empty_or_reversed_window_is_never_promoted() {
    // An empty or reversed preferred window can never be booked, so a free
    // ledger still does not notify it.
    let ledger = BookingLedger::new();
    let mut queue = WaitlistQueue::new();
    queue.create_waitlist_entry(1, request(9, 100, 100), 1000);
    queue.create_waitlist_entry(2, request(9, 200, 150), 1001);
    let ok = queue.create_waitlist_entry(3, request(9, 100, 200), 1002);
    let event = CapacityFreed { resource_id: 9, interval: Interval { start: 0, end: 1000 } };
    let promoted = check_and_notify_waitlist(&ledger, &mut queue, &event);
    assert_eq!(promoted.len(), 1);
    assert_eq!(promoted[0].id, ok.id);
}

#[test]
fn end_to_end_conflict_waitlist_promotion() {
    // Booking X takes [09:00,10:00). Request Y for [09:30,10:30) conflicts,
    // queues as W. Cancelling X frees the slot; the scan finds W's window
    // fully free, notifies it and reports the promotion.
    let mut ledger = BookingLedger::new();
    let mut queue = WaitlistQueue::new();

    let x = ledger.create_booking(1, 32400, 36000, None, 10).unwrap();
    let y = ledger.create_booking(1, 34200, 37800, None, 20);
    assert_eq!(y.unwrap_err(), booking_system::booking::BookingError::Conflict);

    let w = queue.create_waitlist_entry(20, request(1, 34200, 37800), 5000);
    assert!(matches!(w.status, WaitlistStatus::Pending));

    let event = ledger.cancel_booking(x.id, 10, false).unwrap().unwrap();
    let promoted = check_and_notify_waitlist(&ledger, &mut queue, &event);
    assert_eq!(promoted.len(), 1);
    assert_eq!(promoted[0].id, w.id);
    assert!(matches!(promoted[0].status, WaitlistStatus::Notified));
    // Promotion only notified; the requester still has to book.
    assert!(ledger.get_bookings(None, None).is_empty());
    assert_eq!(ledger.audit_bookings().len(), 1);
}
