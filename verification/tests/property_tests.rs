use polka_trace::AccountId;
use polka_trace::EventType;
use polka_trace::PolkaTrace;
use polka_trace::PolkaTraceError;

fn account(id: u8) -> AccountId {
    AccountId::from_bytes([id; 32])
}

#[test]
fn registration_ids_increase_by_one() {
    let mut contract = PolkaTrace::new(account(1));
    let first = contract.register_product(account(7), 100, b"alpha".to_vec()).unwrap();
    let second = contract.register_product(account(8), 101, b"beta".to_vec()).unwrap();
    let third = contract.register_product(account(7), 102, b"gamma".to_vec()).unwrap();
    assert_eq!(first, 1);
    assert_eq!(second, 2);
    assert_eq!(third, 3);
    assert_eq!(contract.registry.next_product_id, 4);
}

#[test]
fn register_records_caller_metadata_and_timestamp() {
    let mut contract = PolkaTrace::new(account(1));
    let creator = account(9);
    let id = contract
        .register_product(creator, 1234567890, b"fresh batch".to_vec())
        .unwrap();
    let product = contract.get_product(id).unwrap();
    assert_eq!(product.0, creator); // owner
    assert_eq!(product.1, creator); // manufacturer
    assert_eq!(product.2, b"fresh batch".to_vec()); // metadata, verbatim
    assert_eq!(product.3, 1234567890); // registration timestamp
    assert_eq!(product.4, 1); // event count starts at 1
}

#[test]
fn register_accepts_empty_metadata() {
    let mut contract = PolkaTrace::new(account(1));
    let id = contract.register_product(account(2), 0, Vec::new()).unwrap();
    let product = contract.get_product(id).unwrap();
    assert_eq!(product.2, Vec::<u8>::new());
    assert_eq!(product.4, 1);
}

#[test]
fn event_count_is_one_plus_events() {
    let mut contract = PolkaTrace::new(account(1));
    let admin = account(1);
    let logger = account(2);
    contract.add_authorized_account(admin, logger).unwrap();
    let id = contract.register_product(account(3), 0, b"counted".to_vec()).unwrap();
    for _ in 0..5 {
        contract.log_event(logger, id, EventType::Inspected).unwrap();
    }
    let product = contract.get_product(id).unwrap();
    assert_eq!(product.4, 6); // 1 at creation + 5 logged events
}

#[test]
fn repeated_received_moves_id_to_tail() {
    let mut contract = PolkaTrace::new(account(1));
    let holder = account(1); // the admin, so it may log events
    let first = contract.register_product(holder, 0, b"one".to_vec()).unwrap();
    let second = contract.register_product(holder, 0, b"two".to_vec()).unwrap();
    assert_eq!(contract.get_products_by_owner(holder), vec![first, second]);

    // Receiving what it already holds keeps membership but moves the id
    // to the tail of the holder's sequence.
    contract.log_event(holder, first, EventType::Received).unwrap();
    assert_eq!(contract.get_products_by_owner(holder), vec![second, first]);

    contract.log_event(holder, second, EventType::Received).unwrap();
    assert_eq!(contract.get_products_by_owner(holder), vec![first, second]);

    // Ownership itself never changed.
    assert_eq!(contract.get_product(first).unwrap().0, holder);
    assert_eq!(contract.get_product(second).unwrap().0, holder);
}

#[test]
fn received_held_exactly_once_after_transfer() {
    let mut contract = PolkaTrace::new(account(1));
    let admin = account(1);
    let maker = account(2);
    let courier = account(3);
    contract.add_authorized_account(admin, courier).unwrap();
    let id = contract.register_product(maker, 0, b"parcel".to_vec()).unwrap();

    contract.log_event(courier, id, EventType::Received).unwrap();
    let held = contract.get_products_by_owner(courier);
    assert_eq!(held.iter().filter(|x| **x == id).count(), 1);
    assert_eq!(contract.get_products_by_owner(maker), Vec::<u128>::new());

    // A second Received by the same holder still leaves it held exactly once.
    contract.log_event(courier, id, EventType::Received).unwrap();
    let held = contract.get_products_by_owner(courier);
    assert_eq!(held.iter().filter(|x| **x == id).count(), 1);
}

#[test]
fn unauthorized_then_authorized_transfer_scenario() {
    // Identity M registers metadata "X", obtaining id 1. Identity D
    // (unauthorized) logs Shipped and observes UnauthorizedAccess. The
    // admin authorizes D; D then logs Received and takes custody.
    let admin = account(1);
    let m = account(2);
    let d = account(3);
    let mut contract = PolkaTrace::new(admin);

    let id = contract.register_product(m, 0, b"X".to_vec()).unwrap();
    assert_eq!(id, 1);

    assert_eq!(
        contract.log_event(d, 1, EventType::Shipped),
        Err(PolkaTraceError::UnauthorizedAccess)
    );

    contract.add_authorized_account(admin, d).unwrap();
    assert!(contract.log_event(d, 1, EventType::Received).is_ok());

    let product = contract.get_product(1).unwrap();
    assert_eq!(product.0, d); // owner
    assert_eq!(product.1, m); // manufacturer
    assert_eq!(product.4, 2); // event count
    assert_eq!(contract.get_products_by_owner(m), Vec::<u128>::new());
    assert_eq!(contract.get_products_by_owner(d), vec![1]);
}

#[test]
fn revoked_identity_cannot_log_and_state_is_untouched() {
    // Continues the transfer scenario: the admin revokes D, whose next
    // attempt fails with UnauthorizedAccess and changes nothing — the
    // event count stays at 2.
    let admin = account(1);
    let m = account(2);
    let d = account(3);
    let mut contract = PolkaTrace::new(admin);
    contract.register_product(m, 0, b"X".to_vec()).unwrap();
    contract.add_authorized_account(admin, d).unwrap();
    contract.log_event(d, 1, EventType::Received).unwrap();
    assert_eq!(contract.get_product(1).unwrap().4, 2);

    contract.remove_authorized_account(admin, d).unwrap();
    assert_eq!(
        contract.log_event(d, 1, EventType::Shipped),
        Err(PolkaTraceError::UnauthorizedAccess)
    );
    let product = contract.get_product(1).unwrap();
    assert_eq!(product.4, 2); // no partial mutation on failure
    assert_eq!(product.0, d); // custody untouched
    assert_eq!(contract.get_products_by_owner(d), vec![1]);
}

#[test]
fn unauthorized_beats_not_found_ordering() {
    // The authorization gate is checked before existence: an unauthorized
    // caller referencing an unknown id must see UnauthorizedAccess, while
    // an authorized caller sees ProductNotFound.
    let admin = account(1);
    let stranger = account(2);
    let vetted = account(3);
    let mut contract = PolkaTrace::new(admin);
    contract.add_authorized_account(admin, vetted).unwrap();

    assert_eq!(
        contract.log_event(stranger, 424242, EventType::Delivered),
        Err(PolkaTraceError::UnauthorizedAccess)
    );
    assert_eq!(
        contract.log_event(vetted, 424242, EventType::Delivered),
        Err(PolkaTraceError::ProductNotFound)
    );
}

#[test]
fn admin_stays_authorized_after_explicit_removal() {
    let admin = account(1);
    let mut contract = PolkaTrace::new(admin);
    // The admin is auto-enrolled at construction; removing the explicit
    // entry must not revoke the implicit authorization.
    contract.remove_authorized_account(admin, admin).unwrap();
    assert!(contract.is_authorized(admin));

    let id = contract.register_product(account(2), 0, b"still works".to_vec()).unwrap();
    assert!(contract.log_event(admin, id, EventType::Inspected).is_ok());
}

#[test]
fn adding_twice_is_idempotent_and_removal_is_not_an_error() {
    let admin = account(1);
    let member = account(4);
    let mut contract = PolkaTrace::new(admin);
    assert!(contract.add_authorized_account(admin, member).is_ok());
    assert!(contract.add_authorized_account(admin, member).is_ok());
    assert!(contract.is_authorized(member));
    assert!(contract.remove_authorized_account(admin, member).is_ok());
    assert!(!contract.is_authorized(member));
    // Removing an absent identity is a no-op success.
    assert!(contract.remove_authorized_account(admin, member).is_ok());
    assert!(!contract.is_authorized(member));
}

#[test]
fn non_admin_cannot_remove_authorization() {
    let admin = account(1);
    let member = account(2);
    let mut contract = PolkaTrace::new(admin);
    contract.add_authorized_account(admin, member).unwrap();
    assert_eq!(
        contract.remove_authorized_account(member, member),
        Err(PolkaTraceError::UnauthorizedAccess)
    );
    assert!(contract.is_authorized(member));
}

#[test]
fn distinct_byte_addresses_are_distinct_identities() {
    let a = AccountId::from_bytes([1; 32]);
    let b = AccountId::from_bytes([2; 32]);
    let a_again = AccountId::from_bytes([1; 32]);
    assert_ne!(a, b);
    assert_eq!(a, a_again);

    let mut bytes = [0u8; 32];
    bytes[31] = 1;
    let c = AccountId::from_bytes(bytes);
    assert_ne!(c, AccountId::from_bytes([0u8; 32]));
}

#[test]
fn saturated_counter_reuses_maximum_id() {
    let mut contract = PolkaTrace::new(account(1));
    contract.registry.next_product_id = u128::MAX;
    let first = contract.register_product(account(2), 0, b"edge".to_vec()).unwrap();
    assert_eq!(first, u128::MAX);
    assert_eq!(contract.registry.next_product_id, u128::MAX);

    // A further registration still succeeds and reuses the maximum id;
    // the fresh record replaces the old one and custody follows it.
    let second = contract.register_product(account(3), 7, b"edge again".to_vec()).unwrap();
    assert_eq!(second, u128::MAX);
    let product = contract.get_product(u128::MAX).unwrap();
    assert_eq!(product.0, account(3));
    assert_eq!(product.1, account(3));
    assert_eq!(product.4, 1);
    assert_eq!(contract.get_products_by_owner(account(2)), Vec::<u128>::new());
    assert_eq!(contract.get_products_by_owner(account(3)), vec![u128::MAX]);
}
