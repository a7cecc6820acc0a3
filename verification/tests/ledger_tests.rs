use chronopay::contract::{ChronoPayContract, Effects};
use chronopay::errors;
use chronopay::events::Event;
use chronopay::schedule::SlotSchedule;
use chronopay::table::Table;
use chronopay::{ChronoPayError, ProfessionalMetadata, TimeTokenStatus};

const CONTRACT: &str = "CCONTRACT";
const ADMIN: &str = "GADMIN";

fn s(x: &str) -> String {
    x.to_string()
}

fn initialized() -> ChronoPayContract {
    let mut c = ChronoPayContract::new();
    let mut fx = Effects::new();
    assert_eq!(c.initialize(&mut fx, &s(CONTRACT), s(ADMIN)), Ok(()));
    c
}

fn with_alice() -> ChronoPayContract {
    let mut c = initialized();
    let mut fx = Effects::new();
    assert_eq!(
        c.authorize_professional(&mut fx, 100, &s("alice"), &s("Alice"), &s("Therapy")),
        Ok(())
    );
    c
}

fn event_name(e: &Event) -> (&'static str, &'static str) {
    e.topics()
}

// ── initialize ────────────────────────────────────────────────────────────────

#[test]
fn initialize_sets_admin_and_requires_its_authorization() {
    let mut c = ChronoPayContract::new();
    assert_eq!(c.get_admin(), None);
    let mut fx = Effects::new();
    assert_eq!(c.initialize(&mut fx, &s(CONTRACT), s(ADMIN)), Ok(()));
    assert_eq!(c.get_admin(), Some(s(ADMIN)));
    assert_eq!(fx.auth_required, vec![s(ADMIN)]);
    assert!(fx.events.is_empty());
    assert!(c.get_authorized_professionals().is_empty());
}

#[test]
fn initialize_rejects_contract_as_admin() {
    let mut c = ChronoPayContract::new();
    let mut fx = Effects::new();
    assert_eq!(
        c.initialize(&mut fx, &s(CONTRACT), s(CONTRACT)),
        Err(ChronoPayError::InvalidInput)
    );
    assert_eq!(c.get_admin(), None);
    assert!(fx.auth_required.is_empty());
}

#[test]
fn initialize_resets_slot_counter() {
    let mut c = with_alice();
    let mut fx = Effects::new();
    assert_eq!(c.create_time_slot(&mut fx, 0, &s("alice"), 10, 20), Ok(1));
    assert_eq!(c.initialize(&mut fx, &s(CONTRACT), s(ADMIN)), Ok(()));
    assert_eq!(c.schedule().slot_seq(), 0);
    assert_eq!(c.create_time_slot(&mut fx, 0, &s("alice"), 30, 40), Ok(1));
}

// ── authorize / unauthorize ──────────────────────────────────────────────────

#[test]
fn authorize_without_admin_is_admin_error() {
    let mut c = ChronoPayContract::new();
    let mut fx = Effects::new();
    assert_eq!(
        c.authorize_professional(&mut fx, 1, &s("alice"), &s("Alice"), &s("Law")),
        Err(ChronoPayError::AdminError)
    );
    assert!(fx.auth_required.is_empty());
    assert!(!c.is_professional_authorized(&s("alice")));
}

#[test]
fn authorize_records_metadata_list_and_event() {
    let mut c = initialized();
    let mut fx = Effects::new();
    assert_eq!(
        c.authorize_professional(&mut fx, 777, &s("alice"), &s("Alice"), &s("Therapy")),
        Ok(())
    );
    assert!(c.is_professional_authorized(&s("alice")));
    assert!(!c.is_professional_authorized(&s("bob")));
    let m = c.get_professional_metadata(&s("alice")).unwrap();
    assert_eq!(m.name, "Alice");
    assert_eq!(m.verified_at, 777);
    assert_eq!(m.category, "Therapy");
    assert_eq!(c.get_authorized_professionals(), vec![s("alice")]);
    assert_eq!(fx.auth_required, vec![s(ADMIN)]);
    assert_eq!(fx.events.len(), 1);
    assert_eq!(event_name(&fx.events[0]), ("auth", "pro"));
    match &fx.events[0] {
        Event::ProfessionalAuthorized { professional, name, category } => {
            assert_eq!(professional, "alice");
            assert_eq!(name, "Alice");
            assert_eq!(category, "Therapy");
        }
        other => panic!("unexpected event {:?}", other),
    }
}

#[test]
fn authorize_twice_is_already_authorized() {
    let mut c = with_alice();
    let mut fx = Effects::new();
    assert_eq!(
        c.authorize_professional(&mut fx, 5, &s("alice"), &s("A"), &s("B")),
        Err(ChronoPayError::AlreadyAuthorized)
    );
    assert_eq!(c.get_professional_metadata(&s("alice")).unwrap().verified_at, 100);
    assert_eq!(fx.auth_required, vec![s(ADMIN)]);
}

#[test]
fn authorize_with_empty_name_or_category_is_invalid() {
    let mut c = initialized();
    let mut fx = Effects::new();
    assert_eq!(
        c.authorize_professional(&mut fx, 5, &s("bob"), &s(""), &s("B")),
        Err(ChronoPayError::InvalidInput)
    );
    assert_eq!(
        c.authorize_professional(&mut fx, 5, &s("bob"), &s("Bob"), &s("")),
        Err(ChronoPayError::InvalidInput)
    );
    assert!(!c.is_professional_authorized(&s("bob")));
    assert!(fx.events.is_empty());
}

#[test]
fn unauthorize_removes_everything_and_emits() {
    let mut c = with_alice();
    let mut fx = Effects::new();
    assert_eq!(c.authorize_professional(&mut fx, 1, &s("bob"), &s("Bob"), &s("Law")), Ok(()));
    let mut fx = Effects::new();
    assert_eq!(c.unauthorize_professional(&mut fx, &s("alice")), Ok(()));
    assert!(!c.is_professional_authorized(&s("alice")));
    assert_eq!(c.get_professional_metadata(&s("alice")), None);
    assert_eq!(c.get_authorized_professionals(), vec![s("bob")]);
    assert_eq!(fx.auth_required, vec![s(ADMIN)]);
    assert_eq!(fx.events.len(), 1);
    assert_eq!(event_name(&fx.events[0]), ("unauth", "pro"));
}

#[test]
fn unauthorize_unknown_is_not_found() {
    let mut c = initialized();
    let mut fx = Effects::new();
    assert_eq!(
        c.unauthorize_professional(&mut fx, &s("carol")),
        Err(ChronoPayError::ProfessionalNotFound)
    );
}

#[test]
fn unauthorize_without_admin_is_admin_error() {
    let mut c = ChronoPayContract::new();
    let mut fx = Effects::new();
    assert_eq!(
        c.unauthorize_professional(&mut fx, &s("carol")),
        Err(ChronoPayError::AdminError)
    );
}

#[test]
fn unauthorize_then_authorize_again() {
    let mut c = with_alice();
    let mut fx = Effects::new();
    assert_eq!(c.unauthorize_professional(&mut fx, &s("alice")), Ok(()));
    assert_eq!(
        c.authorize_professional(&mut fx, 9, &s("alice"), &s("Alice"), &s("Art")),
        Ok(())
    );
    assert_eq!(c.get_professional_metadata(&s("alice")).unwrap().category, "Art");
    assert_eq!(c.get_authorized_professionals(), vec![s("alice")]);
}

// ── create_time_slot ──────────────────────────────────────────────────────────

#[test]
fn create_slot_requires_authorized_professional() {
    let mut c = initialized();
    let mut fx = Effects::new();
    assert_eq!(
        c.create_time_slot(&mut fx, 0, &s("mallory"), 10, 20),
        Err(ChronoPayError::ProfessionalNotAuthorized)
    );
    assert_eq!(fx.auth_required, vec![s("mallory")]);
    assert_eq!(fx.events.len(), 1);
    match &fx.events[0] {
        Event::AuthorizationChecked { professional, authorized } => {
            assert_eq!(professional, "mallory");
            assert!(!authorized);
        }
        other => panic!("unexpected event {:?}", other),
    }
    assert!(c.schedule().slots().is_empty());
}

#[test]
fn create_slot_numbers_and_emits() {
    let mut c = with_alice();
    let mut fx = Effects::new();
    assert_eq!(c.create_time_slot(&mut fx, 500, &s("alice"), 1000, 2000), Ok(1));
    assert_eq!(c.create_time_slot(&mut fx, 500, &s("alice"), 2000, 3000), Ok(2));
    assert_eq!(fx.auth_required, vec![s("alice"), s("alice")]);
    assert_eq!(fx.events.len(), 4);
    assert_eq!(event_name(&fx.events[0]), ("check", "auth"));
    assert_eq!(event_name(&fx.events[1]), ("slot", "create"));
    match &fx.events[3] {
        Event::TimeSlotCreated { slot_id, professional, start_time, end_time } => {
            assert_eq!(*slot_id, 2);
            assert_eq!(professional, "alice");
            assert_eq!(*start_time, 2000);
            assert_eq!(*end_time, 3000);
        }
        other => panic!("unexpected event {:?}", other),
    }
    assert_eq!(c.schedule().slots().len(), 2);
}

#[test]
fn create_slot_rejects_bad_windows() {
    let mut c = with_alice();
    let mut fx = Effects::new();
    // empty window
    assert_eq!(
        c.create_time_slot(&mut fx, 0, &s("alice"), 1000, 1000),
        Err(ChronoPayError::InvalidInput)
    );
    // starts in the past
    assert_eq!(
        c.create_time_slot(&mut fx, 1500, &s("alice"), 1000, 2000),
        Err(ChronoPayError::InvalidInput)
    );
    // starting exactly now is fine
    assert_eq!(c.create_time_slot(&mut fx, 1000, &s("alice"), 1000, 2000), Ok(1));
    // overlapping the existing slot
    assert_eq!(
        c.create_time_slot(&mut fx, 1000, &s("alice"), 1999, 2500),
        Err(ChronoPayError::InvalidInput)
    );
    assert_eq!(c.schedule().slot_seq(), 1);
}

#[test]
fn create_slot_fails_when_ids_run_out() {
    let mut c = with_alice();
    let c0 = c;
    let book = SlotSchedule::from_parts(u32::MAX, Vec::new()).unwrap();
    let mut c = ChronoPayContract::from_parts(
        c0.get_admin(),
        book,
        c0.get_authorized_professionals(),
        Table::from_entries(c0.registry().entries().clone()),
        Table::from_entries(Vec::new()),
    )
    .unwrap();
    let mut fx = Effects::new();
    assert_eq!(
        c.create_time_slot(&mut fx, 0, &s("alice"), 1, 2),
        Err(ChronoPayError::InvalidInput)
    );
    assert_eq!(c.schedule().slot_seq(), u32::MAX);
}

// ── mint / buy / redeem ───────────────────────────────────────────────────────

#[test]
fn mint_requires_authorized_professional() {
    let mut c = initialized();
    let mut fx = Effects::new();
    assert_eq!(
        c.mint_time_token(&mut fx, &s("mallory"), 1),
        Err(ChronoPayError::ProfessionalNotAuthorized)
    );
    assert_eq!(fx.auth_required, vec![s("mallory")]);
}

#[test]
fn token_lifecycle() {
    let mut c = with_alice();
    let mut fx = Effects::new();
    let token = c.mint_time_token(&mut fx, &s("alice"), 1).unwrap();
    assert_eq!(token, "TIME_TOKEN");
    assert_eq!(c.tokens().get(&token).unwrap().status, TimeTokenStatus::Available);
    assert_eq!(c.tokens().get(&token).unwrap().owner, Some(s("alice")));
    // cannot redeem before buying
    assert_eq!(c.redeem_time_token(&token), Err(ChronoPayError::InvalidInput));
    assert_eq!(c.buy_time_token(&token, &s("bob"), &s("alice")), Ok(true));
    assert_eq!(c.tokens().get(&token).unwrap().status, TimeTokenStatus::Sold);
    // buying transfers the token to the buyer
    assert_eq!(c.tokens().get(&token).unwrap().owner, Some(s("bob")));
    // cannot buy twice
    assert_eq!(c.buy_time_token(&token, &s("bob"), &s("alice")), Err(ChronoPayError::InvalidInput));
    assert_eq!(c.redeem_time_token(&token), Ok(true));
    assert_eq!(c.tokens().get(&token).unwrap().status, TimeTokenStatus::Redeemed);
    assert_eq!(c.tokens().get(&token).unwrap().owner, Some(s("bob")));
    assert_eq!(c.redeem_time_token(&token), Err(ChronoPayError::InvalidInput));
    assert_eq!(c.buy_time_token(&token, &s("bob"), &s("alice")), Err(ChronoPayError::InvalidInput));
}

#[test]
fn never_minted_token_can_be_bought_then_redeemed() {
    let mut c = initialized();
    let t = s("TIME_TOKEN");
    assert_eq!(c.buy_time_token(&t, &s("bob"), &s("alice")), Ok(true));
    assert_eq!(c.tokens().get(&t).unwrap().owner, Some(s("bob")));
    assert_eq!(c.tokens().get(&t).unwrap().status, TimeTokenStatus::Sold);
    assert_eq!(c.buy_time_token(&t, &s("carol"), &s("bob")), Err(ChronoPayError::InvalidInput));
    assert_eq!(c.redeem_time_token(&t), Ok(true));
    assert_eq!(c.tokens().get(&t).unwrap().status, TimeTokenStatus::Redeemed);
}

#[test]
fn never_minted_token_can_be_redeemed() {
    let mut c = initialized();
    let t = s("OTHER");
    assert_eq!(c.redeem_time_token(&t), Ok(true));
    assert_eq!(c.tokens().get(&t).unwrap().owner, None);
    assert_eq!(c.tokens().get(&t).unwrap().status, TimeTokenStatus::Redeemed);
    assert_eq!(c.buy_time_token(&t, &s("bob"), &s("alice")), Err(ChronoPayError::InvalidInput));
}

#[test]
fn remint_makes_token_available_again() {
    let mut c = with_alice();
    let mut fx = Effects::new();
    let token = c.mint_time_token(&mut fx, &s("alice"), 1).unwrap();
    assert_eq!(c.buy_time_token(&token, &s("bob"), &s("alice")), Ok(true));
    let again = c.mint_time_token(&mut fx, &s("alice"), 2).unwrap();
    assert_eq!(again, token);
    assert_eq!(c.tokens().get(&token).unwrap().status, TimeTokenStatus::Available);
    assert_eq!(c.tokens().entries().len(), 1);
}

// ── table ─────────────────────────────────────────────────────────────────────

#[test]
fn table_insert_get_remove() {
    let mut t: Table<u32> = Table::new();
    t.insert(s("a"), 1);
    t.insert(s("b"), 2);
    t.insert(s("a"), 3);
    assert_eq!(t.get(&s("a")), Some(&3));
    assert_eq!(t.get(&s("b")), Some(&2));
    assert!(!t.contains_key(&s("c")));
    t.remove(&s("a"));
    assert_eq!(t.get(&s("a")), None);
    assert_eq!(t.get(&s("b")), Some(&2));
}

#[test]
fn metadata_clone_is_equal() {
    let m = ProfessionalMetadata { name: s("n"), verified_at: 3, category: s("c") };
    assert_eq!(m.clone(), m);
}

// ── error codes ───────────────────────────────────────────────────────────────

#[test]
fn contract_error_codes() {
    assert_eq!(ChronoPayError::Unauthorized.code(), 1);
    assert_eq!(ChronoPayError::InvalidInput.code(), 5);
    assert_eq!(ChronoPayError::AdminError.code(), 6);
}

#[test]
fn error_codes_round_trip() {
    for code in 0..12u32 {
        match errors::ChronoPayError::from_code(code) {
            Some(e) => assert_eq!(e.code(), code),
            None => assert!(code == 0 || code > 9),
        }
    }
    assert_eq!(
        errors::ChronoPayError::from_code(5),
        Some(errors::ChronoPayError::TokenNotFound)
    );
}

#[test]
fn error_converts_to_contract_error() {
    let e: soroban_sdk::Error = errors::ChronoPayError::TokenNotFound.into();
    assert_eq!(e, soroban_sdk::Error::from_contract_error(5));
    let e2: soroban_sdk::Error = (&errors::ChronoPayError::InvalidTimeSlot).into();
    assert_eq!(e2, soroban_sdk::Error::from_contract_error(9));
    assert_eq!(e2.get_code(), 9);
}

#[test]
fn error_read_back_is_refused() {
    let e = soroban_sdk::Error::from_contract_error(3);
    assert_eq!(errors::ChronoPayError::try_from(e), Err(e));
    assert_eq!(errors::ChronoPayError::try_from_error(e), Err(e));
}

// ── laws on concrete values ──────────────────────────────────────────────────

#[test]
fn unauthorize_undoes_authorize() {
    let mut c = with_alice();
    let before_list = c.get_authorized_professionals();
    let mut fx = Effects::new();
    assert_eq!(c.authorize_professional(&mut fx, 50, &s("bob"), &s("Bob"), &s("Law")), Ok(()));
    assert_eq!(c.unauthorize_professional(&mut fx, &s("bob")), Ok(()));
    assert_eq!(c.get_authorized_professionals(), before_list);
    assert!(!c.is_professional_authorized(&s("bob")));
    assert_eq!(c.get_professional_metadata(&s("alice")).unwrap().verified_at, 100);
}

#[test]
fn refused_requests_change_nothing() {
    let mut c = with_alice();
    let mut fx = Effects::new();
    assert_eq!(c.create_time_slot(&mut fx, 0, &s("alice"), 10, 20), Ok(1));
    let _ = c.create_time_slot(&mut fx, 0, &s("alice"), 15, 25);
    let _ = c.create_time_slot(&mut fx, 0, &s("bob"), 30, 40);
    let _ = c.authorize_professional(&mut fx, 1, &s("alice"), &s("X"), &s("Y"));
    let _ = c.unauthorize_professional(&mut fx, &s("nobody"));
    let _ = c.redeem_time_token(&s("TIME_TOKEN"));
    let _ = c.buy_time_token(&s("TIME_TOKEN"), &s("bob"), &s("alice"));
    assert_eq!(c.schedule().slot_seq(), 1);
    assert_eq!(c.schedule().slots().len(), 1);
    assert_eq!(c.get_authorized_professionals(), vec![s("alice")]);
    assert_eq!(c.get_professional_metadata(&s("alice")).unwrap().name, "Alice");
    assert_eq!(c.tokens().get(&s("TIME_TOKEN")).unwrap().status, TimeTokenStatus::Redeemed);
}

#[test]
fn reinitialize_keeps_registry_but_empties_list() {
    let mut c = with_alice();
    let mut fx = Effects::new();
    assert_eq!(c.initialize(&mut fx, &s(CONTRACT), s("GOTHER")), Ok(()));
    assert!(c.is_professional_authorized(&s("alice")));
    assert!(c.get_authorized_professionals().is_empty());
    assert_eq!(c.get_admin(), Some(s("GOTHER")));
}

#[test]
fn from_parts_refuses_unsound_lists() {
    let book = || SlotSchedule::new();
    let meta = ProfessionalMetadata { name: s("A"), verified_at: 1, category: s("C") };
    let registry = || Table::from_entries(vec![(s("alice"), meta.clone())]);
    assert!(ChronoPayContract::from_parts(None, book(), vec![s("alice")], registry(), Table::new()).is_some());
    assert!(ChronoPayContract::from_parts(None, book(), vec![s("bob")], registry(), Table::new()).is_none());
    assert!(ChronoPayContract::from_parts(
        None,
        book(),
        vec![s("alice"), s("alice")],
        registry(),
        Table::new()
    )
    .is_none());
}
