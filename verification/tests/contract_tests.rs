use chronopay::contract::{ChronoPayContract, Effects};
use chronopay::schedule::{SlotSchedule, TimeSlot};
use chronopay::ChronoPayError;

/// The ledger time at which the tests run.
const NOW: u64 = 0;

/// A ledger with an admin and the professionals alice and bob authorized.
fn setup() -> (ChronoPayContract, Effects) {
    let mut client = ChronoPayContract::new();
    let mut fx = Effects::new();
    client.initialize(&mut fx, &"CCHRONOPAY".to_string(), "GADMIN".to_string()).unwrap();
    client
        .authorize_professional(&mut fx, NOW, &alice(), &"Alice".to_string(), &"Therapy".to_string())
        .unwrap();
    client.authorize_professional(&mut fx, NOW, &bob(), &"Bob".to_string(), &"Law".to_string()).unwrap();
    (client, fx)
}

fn alice() -> String {
    "alice".to_string()
}

fn bob() -> String {
    "bob".to_string()
}

// ── hello ─────────────────────────────────────────────────────────────────────

#[test]
fn test_hello() {
    let words = ChronoPayContract::hello("Dev".to_string());
    assert_eq!(words, vec!["ChronoPay".to_string(), "Dev".to_string()]);
}

// ── create_time_slot: happy paths ─────────────────────────────────────────────

#[test]
fn test_slot_ids_auto_increment() {
    let (mut client, mut fx) = setup();
    let a = alice();
    assert_eq!(client.create_time_slot(&mut fx, NOW, &a, 1000, 2000), Ok(1));
    assert_eq!(client.create_time_slot(&mut fx, NOW, &a, 2000, 3000), Ok(2));
    assert_eq!(client.create_time_slot(&mut fx, NOW, &a, 5000, 6000), Ok(3));
}

#[test]
fn test_adjacent_slots_are_allowed() {
    // [1000,2000) then [2000,3000) — they touch but do not overlap
    let (mut client, mut fx) = setup();
    let a = alice();
    client.create_time_slot(&mut fx, NOW, &a, 1000, 2000).unwrap();
    client.create_time_slot(&mut fx, NOW, &a, 2000, 3000).unwrap(); // must not panic
}

#[test]
fn test_gap_between_slots_is_allowed() {
    let (mut client, mut fx) = setup();
    let a = alice();
    client.create_time_slot(&mut fx, NOW, &a, 1000, 2000).unwrap();
    client.create_time_slot(&mut fx, NOW, &a, 3000, 4000).unwrap();
}

#[test]
fn test_different_professionals_same_window_allowed() {
    // Overlap enforcement is per-professional; alice and bob may share a window.
    let (mut client, mut fx) = setup();
    client.create_time_slot(&mut fx, NOW, &alice(), 1000, 2000).unwrap();
    client.create_time_slot(&mut fx, NOW, &bob(), 1000, 2000).unwrap(); // must not panic
}

// ── create_time_slot: error paths ─────────────────────────────────────────────

#[test]
#[should_panic]
fn test_invalid_range_start_equals_end() {
    let (mut client, mut fx) = setup();
    client.create_time_slot(&mut fx, NOW, &alice(), 1000, 1000).unwrap();
}

#[test]
#[should_panic]
fn test_invalid_range_start_after_end() {
    let (mut client, mut fx) = setup();
    client.create_time_slot(&mut fx, NOW, &alice(), 2000, 1000).unwrap();
}

#[test]
#[should_panic]
fn test_exact_duplicate_slot_rejected() {
    let (mut client, mut fx) = setup();
    let a = alice();
    client.create_time_slot(&mut fx, NOW, &a, 1000, 2000).unwrap();
    client.create_time_slot(&mut fx, NOW, &a, 1000, 2000).unwrap(); // identical → overlap
}

#[test]
#[should_panic]
fn test_overlap_new_starts_inside_existing() {
    // existing [1000,3000), new [2000,4000) — overlaps
    let (mut client, mut fx) = setup();
    let a = alice();
    client.create_time_slot(&mut fx, NOW, &a, 1000, 3000).unwrap();
    client.create_time_slot(&mut fx, NOW, &a, 2000, 4000).unwrap();
}

#[test]
#[should_panic]
fn test_overlap_new_ends_inside_existing() {
    // existing [2000,4000), new [1000,3000) — overlaps
    let (mut client, mut fx) = setup();
    let a = alice();
    client.create_time_slot(&mut fx, NOW, &a, 2000, 4000).unwrap();
    client.create_time_slot(&mut fx, NOW, &a, 1000, 3000).unwrap();
}

#[test]
#[should_panic]
fn test_overlap_new_contains_existing() {
    // existing [1500,2500), new [1000,3000) — new wraps existing
    let (mut client, mut fx) = setup();
    let a = alice();
    client.create_time_slot(&mut fx, NOW, &a, 1500, 2500).unwrap();
    client.create_time_slot(&mut fx, NOW, &a, 1000, 3000).unwrap();
}

#[test]
#[should_panic]
fn test_overlap_existing_contains_new() {
    // existing [1000,3000), new [1500,2500) — new is inside existing
    let (mut client, mut fx) = setup();
    let a = alice();
    client.create_time_slot(&mut fx, NOW, &a, 1000, 3000).unwrap();
    client.create_time_slot(&mut fx, NOW, &a, 1500, 2500).unwrap();
}

// ── mint / buy / redeem ───────────────────────────────────────────────────────

#[test]
fn test_mint_returns_time_token_symbol() {
    let (mut client, mut fx) = setup();
    let slot_id = client.create_time_slot(&mut fx, NOW, &alice(), 1000, 2000).unwrap();
    let token = client.mint_time_token(&mut fx, &alice(), slot_id).unwrap();
    assert_eq!(token, "TIME_TOKEN".to_string());
}

#[test]
fn test_buy_time_token_returns_true() {
    let mut client = ChronoPayContract::new();
    let token = "TIME_TOKEN".to_string();
    assert!(client.buy_time_token(&token, &alice(), &bob()).unwrap());
}

#[test]
fn test_redeem_time_token_returns_true() {
    let mut client = ChronoPayContract::new();
    let token = "TIME_TOKEN".to_string();
    assert!(client.redeem_time_token(&token).unwrap());
}

// ── the slot book on its own ──────────────────────────────────────────────────

#[test]
fn schedule_slot_ids_auto_increment() {
    let mut book = SlotSchedule::new();
    let a = alice();
    assert_eq!(book.create_time_slot(&a, 1000, 2000), Ok(1));
    assert_eq!(book.create_time_slot(&a, 2000, 3000), Ok(2));
    assert_eq!(book.create_time_slot(&a, 5000, 6000), Ok(3));
}

#[test]
fn schedule_adjacent_slots_are_allowed() {
    // [1000,2000) then [2000,3000) — they touch but do not overlap
    let mut book = SlotSchedule::new();
    let a = alice();
    book.create_time_slot(&a, 1000, 2000).unwrap();
    book.create_time_slot(&a, 2000, 3000).unwrap(); // must not panic
}

#[test]
fn schedule_gap_between_slots_is_allowed() {
    let mut book = SlotSchedule::new();
    let a = alice();
    book.create_time_slot(&a, 1000, 2000).unwrap();
    book.create_time_slot(&a, 3000, 4000).unwrap();
}

#[test]
fn schedule_different_professionals_same_window_allowed() {
    // Overlap enforcement is per-professional; alice and bob may share a window.
    let mut book = SlotSchedule::new();
    book.create_time_slot(&alice(), 1000, 2000).unwrap();
    book.create_time_slot(&bob(), 1000, 2000).unwrap(); // must not panic
}


#[test]
fn schedule_rejects_empty_and_overlapping_windows() {
    let mut book = SlotSchedule::new();
    let a = alice();
    assert_eq!(book.create_time_slot(&a, 1000, 1000), Err(ChronoPayError::InvalidInput));
    assert_eq!(book.create_time_slot(&a, 2000, 1000), Err(ChronoPayError::InvalidInput));
    assert_eq!(book.create_time_slot(&a, 1000, 3000), Ok(1));
    assert_eq!(book.create_time_slot(&a, 1000, 3000), Err(ChronoPayError::InvalidInput));
    assert_eq!(book.create_time_slot(&a, 2000, 4000), Err(ChronoPayError::InvalidInput));
    assert_eq!(book.create_time_slot(&a, 500, 1500), Err(ChronoPayError::InvalidInput));
    assert_eq!(book.create_time_slot(&a, 500, 3500), Err(ChronoPayError::InvalidInput));
    assert_eq!(book.create_time_slot(&a, 1500, 2500), Err(ChronoPayError::InvalidInput));
    assert_eq!(book.slot_seq(), 1);
    assert_eq!(book.slots().len(), 1);
}

#[test]
fn schedule_from_parts_refuses_overlaps() {
    let slot = |id: u32, p: &str, s: u64, e: u64| TimeSlot {
        slot_id: id,
        professional: p.to_string(),
        start_time: s,
        end_time: e,
    };
    assert!(SlotSchedule::from_parts(2, vec![slot(1, "a", 0, 10), slot(2, "a", 10, 20)]).is_some());
    assert!(SlotSchedule::from_parts(2, vec![slot(1, "a", 0, 10), slot(2, "b", 5, 20)]).is_some());
    assert!(SlotSchedule::from_parts(2, vec![slot(1, "a", 0, 10), slot(2, "a", 5, 20)]).is_none());
}
