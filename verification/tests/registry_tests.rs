use polka_trace::AccountId;
use polka_trace::EventType;
use polka_trace::PolkaTrace;
use polka_trace::PolkaTraceError;

// Helper function to create test accounts
fn account(id: u8) -> AccountId {
    AccountId::from_bytes([id; 32])
}

// Test accounts representing different supply chain actors
fn manufacturer() -> AccountId {
    account(1)
}
fn distributor() -> AccountId {
    account(2)
}
fn retailer() -> AccountId {
    account(3)
}
fn consumer() -> AccountId {
    account(4)
}
fn logistics_company() -> AccountId {
    account(5)
}
fn quality_inspector() -> AccountId {
    account(6)
}

#[test]
fn constructor_works() {
    let contract = PolkaTrace::new(account(1));
    assert_eq!(contract.get_admin(), AccountId::from_bytes([0x01; 32]));
    assert!(contract.is_authorized(AccountId::from_bytes([0x01; 32])));
    assert_eq!(contract.registry.next_product_id, 1);
}

#[test]
fn register_product_basic_functionality() {
    let mut contract = PolkaTrace::new(account(1));
    let metadata = b"Organic Coffee Beans - Ethiopian Highlands".to_vec();

    let result = contract.register_product(manufacturer(), 0, metadata.clone());
    assert!(result.is_ok());

    let product_id = result.unwrap();
    assert_eq!(product_id, 1);

    // Verify product data
    let product = contract.get_product(product_id).unwrap();
    assert_eq!(product.0, manufacturer()); // owner
    assert_eq!(product.1, manufacturer()); // manufacturer
    assert_eq!(product.2, metadata); // metadata
    assert_eq!(product.4, 1); // event_count (created)

    // Verify product appears in owner and manufacturer lists
    assert_eq!(contract.get_products_by_owner(manufacturer()), vec![product_id]);
    assert_eq!(
        contract.get_products_by_manufacturer(manufacturer()),
        vec![product_id]
    );

    // Verify product can be verified
    assert!(contract.verify_product(product_id));
}

#[test]
fn multiple_product_registration() {
    let mut contract = PolkaTrace::new(account(1));

    // Register multiple products
    let coffee_metadata = b"Premium Coffee".to_vec();
    let tea_metadata = b"Earl Grey Tea".to_vec();
    let cocoa_metadata = b"Fair Trade Cocoa".to_vec();

    let coffee_id = contract
        .register_product(manufacturer(), 0, coffee_metadata.clone())
        .unwrap();
    let tea_id = contract
        .register_product(manufacturer(), 0, tea_metadata.clone())
        .unwrap();
    let cocoa_id = contract
        .register_product(manufacturer(), 0, cocoa_metadata.clone())
        .unwrap();

    assert_eq!(coffee_id, 1);
    assert_eq!(tea_id, 2);
    assert_eq!(cocoa_id, 3);

    // Verify all products are tracked by manufacturer
    let manufacturer_products = contract.get_products_by_manufacturer(manufacturer());
    assert_eq!(manufacturer_products.len(), 3);
    assert!(manufacturer_products.contains(&coffee_id));
    assert!(manufacturer_products.contains(&tea_id));
    assert!(manufacturer_products.contains(&cocoa_id));

    // Verify each product has correct metadata
    let coffee_product = contract.get_product(coffee_id).unwrap();
    let tea_product = contract.get_product(tea_id).unwrap();
    let cocoa_product = contract.get_product(cocoa_id).unwrap();

    assert_eq!(coffee_product.2, coffee_metadata);
    assert_eq!(tea_product.2, tea_metadata);
    assert_eq!(cocoa_product.2, cocoa_metadata);
}

#[test]
fn authorization_system() {
    let mut contract = PolkaTrace::new(account(1));
    let admin = AccountId::from_bytes([0x01; 32]);

    // Initially only admin is authorized
    assert!(contract.is_authorized(admin));
    assert!(!contract.is_authorized(distributor()));
    assert!(!contract.is_authorized(logistics_company()));

    // Admin adds authorized accounts
    assert!(contract.add_authorized_account(admin, distributor()).is_ok());
    assert!(contract
        .add_authorized_account(admin, logistics_company())
        .is_ok());

    // Verify accounts are now authorized
    assert!(contract.is_authorized(distributor()));
    assert!(contract.is_authorized(logistics_company()));

    // Non-admin cannot add authorized accounts
    assert_eq!(
        contract.add_authorized_account(distributor(), retailer()),
        Err(PolkaTraceError::UnauthorizedAccess)
    );

    // Admin can remove authorized accounts
    assert!(contract
        .remove_authorized_account(admin, distributor())
        .is_ok());
    assert!(!contract.is_authorized(distributor()));
}

#[test]
fn complete_supply_chain_lifecycle() {
    let mut contract = PolkaTrace::new(account(1));
    let admin = account(1);

    // Setup: Admin authorizes all supply chain participants
    contract.add_authorized_account(admin, distributor()).unwrap();
    contract
        .add_authorized_account(admin, logistics_company())
        .unwrap();
    contract.add_authorized_account(admin, retailer()).unwrap();
    contract
        .add_authorized_account(admin, quality_inspector())
        .unwrap();
    contract.add_authorized_account(admin, consumer()).unwrap(); // Add consumer authorization

    // Step 1: Manufacturer creates product
    let product_id = contract
        .register_product(manufacturer(), 0, b"Luxury Watch - Swiss Made".to_vec())
        .unwrap();

    // Verify initial state
    let product = contract.get_product(product_id).unwrap();
    assert_eq!(product.0, manufacturer()); // owner
    assert_eq!(product.1, manufacturer()); // manufacturer
    assert_eq!(product.4, 1); // event count

    // Step 2: Quality inspection
    contract
        .log_event(quality_inspector(), product_id, EventType::Verified)
        .unwrap();

    // Step 3: Shipped to distributor
    contract
        .log_event(logistics_company(), product_id, EventType::Shipped)
        .unwrap();

    // Step 4: In transit
    contract
        .log_event(logistics_company(), product_id, EventType::InTransit)
        .unwrap();

    // Step 5: Received by distributor (ownership transfer)
    contract
        .log_event(distributor(), product_id, EventType::Received)
        .unwrap();

    // Verify ownership transfer
    let product = contract.get_product(product_id).unwrap();
    assert_eq!(product.0, distributor()); // new owner
    assert_eq!(product.1, manufacturer()); // original manufacturer unchanged
    assert_eq!(product.4, 5); // event count increased

    // Verify ownership lists updated
    assert_eq!(
        contract.get_products_by_owner(manufacturer()),
        Vec::<u128>::new()
    );
    assert_eq!(
        contract.get_products_by_owner(distributor()),
        vec![product_id]
    );

    // Step 6: Shipped to retailer
    contract
        .log_event(logistics_company(), product_id, EventType::Shipped)
        .unwrap();

    // Step 7: Received by retailer (another ownership transfer)
    contract
        .log_event(retailer(), product_id, EventType::Received)
        .unwrap();

    // Verify final ownership
    let product = contract.get_product(product_id).unwrap();
    assert_eq!(product.0, retailer()); // final owner
    assert_eq!(product.1, manufacturer()); // original manufacturer unchanged
    assert_eq!(product.4, 7); // total events: created + verified + shipped + transit + received + shipped + received

    // Verify complete ownership history through events
    assert_eq!(
        contract.get_products_by_owner(distributor()),
        Vec::<u128>::new()
    );
    assert_eq!(contract.get_products_by_owner(retailer()), vec![product_id]);

    // Step 8: Final delivery to consumer
    contract
        .log_event(consumer(), product_id, EventType::Received)
        .unwrap();

    // Verify final state
    let product = contract.get_product(product_id).unwrap();
    assert_eq!(product.0, consumer()); // final consumer
    assert_eq!(product.4, 8); // total events
    assert_eq!(
        contract.get_products_by_owner(retailer()),
        Vec::<u128>::new()
    );
    assert_eq!(contract.get_products_by_owner(consumer()), vec![product_id]);
}

#[test]
fn multi_product_multi_stakeholder_scenario() {
    let mut contract = PolkaTrace::new(account(1));
    let admin = account(1);

    // Setup authorization
    contract.add_authorized_account(admin, distributor()).unwrap();
    contract.add_authorized_account(admin, retailer()).unwrap();

    // Manufacturer creates multiple products
    let watch_id = contract
        .register_product(manufacturer(), 0, b"Luxury Watch".to_vec())
        .unwrap();
    let jewelry_id = contract
        .register_product(manufacturer(), 0, b"Diamond Ring".to_vec())
        .unwrap();
    let perfume_id = contract
        .register_product(manufacturer(), 0, b"Premium Perfume".to_vec())
        .unwrap();

    // Verify manufacturer has all products
    let manufacturer_products = contract.get_products_by_manufacturer(manufacturer());
    assert_eq!(manufacturer_products.len(), 3);
    assert!(manufacturer_products.contains(&watch_id));
    assert!(manufacturer_products.contains(&jewelry_id));
    assert!(manufacturer_products.contains(&perfume_id));

    // Transfer watch and jewelry to distributor
    contract
        .log_event(distributor(), watch_id, EventType::Received)
        .unwrap();
    contract
        .log_event(distributor(), jewelry_id, EventType::Received)
        .unwrap();

    // Transfer perfume to retailer directly
    contract
        .log_event(retailer(), perfume_id, EventType::Received)
        .unwrap();

    // Verify ownership distribution
    assert_eq!(
        contract.get_products_by_owner(manufacturer()),
        Vec::<u128>::new()
    );
    assert_eq!(contract.get_products_by_owner(distributor()).len(), 2);
    assert_eq!(contract.get_products_by_owner(retailer()).len(), 1);

    // Distributor transfers watch to retailer
    contract
        .log_event(retailer(), watch_id, EventType::Received)
        .unwrap();

    // Final verification
    assert_eq!(contract.get_products_by_owner(distributor()).len(), 1); // Only jewelry
    assert_eq!(contract.get_products_by_owner(retailer()).len(), 2); // Watch and perfume

    // Verify each product's event count reflects its journey
    let watch_product = contract.get_product(watch_id).unwrap();
    let jewelry_product = contract.get_product(jewelry_id).unwrap();
    let perfume_product = contract.get_product(perfume_id).unwrap();

    assert_eq!(watch_product.4, 3); // created + received by distributor + received by retailer
    assert_eq!(jewelry_product.4, 2); // created + received by distributor
    assert_eq!(perfume_product.4, 2); // created + received by retailer
}

#[test]
fn unauthorized_access_scenarios() {
    let mut contract = PolkaTrace::new(account(1));

    // Register a product as manufacturer
    let product_id = contract
        .register_product(manufacturer(), 0, b"Test Product".to_vec())
        .unwrap();

    // Unauthorized user tries to log event
    assert_eq!(
        contract.log_event(distributor(), product_id, EventType::Shipped),
        Err(PolkaTraceError::UnauthorizedAccess)
    );

    // Unauthorized user tries to log event on non-existent product
    assert_eq!(
        contract.log_event(distributor(), 999, EventType::Shipped),
        Err(PolkaTraceError::UnauthorizedAccess)
    );
}

#[test]
fn product_not_found_scenarios() {
    let mut contract = PolkaTrace::new(account(1));
    let admin = account(1);

    // Authorize a user
    contract.add_authorized_account(admin, distributor()).unwrap();

    // Try to log event for non-existent product
    assert_eq!(
        contract.log_event(distributor(), 999, EventType::Shipped),
        Err(PolkaTraceError::ProductNotFound)
    );

    // Verify product doesn't exist
    assert!(!contract.verify_product(999));
    assert!(contract.get_product(999).is_none());
}

#[test]
fn complex_agricultural_supply_chain() {
    let mut contract = PolkaTrace::new(account(1));
    let admin = account(1);

    // Setup agricultural supply chain participants
    let farmer = account(10);
    let processor = account(11);
    let packager = account(12);
    let distributor_a = account(13);
    let distributor_b = account(14);
    let supermarket = account(15);

    // Authorize all participants
    contract.add_authorized_account(admin, farmer).unwrap();
    contract.add_authorized_account(admin, processor).unwrap();
    contract.add_authorized_account(admin, packager).unwrap();
    contract.add_authorized_account(admin, distributor_a).unwrap();
    contract.add_authorized_account(admin, distributor_b).unwrap();
    contract.add_authorized_account(admin, supermarket).unwrap();

    // Step 1: Farmer harvests and creates batch
    let batch_id = contract
        .register_product(
            farmer,
            0,
            b"Organic Tomatoes - Batch #2024001 - Farm Location: Napa Valley".to_vec(),
        )
        .unwrap();

    // Step 2: Transport to processor
    contract.log_event(farmer, batch_id, EventType::Shipped).unwrap();
    contract
        .log_event(farmer, batch_id, EventType::InTransit)
        .unwrap();

    // Step 3: Processor receives and processes
    contract
        .log_event(processor, batch_id, EventType::Received)
        .unwrap();
    contract
        .log_event(processor, batch_id, EventType::Inspected)
        .unwrap();

    // Step 4: Send to packager
    contract
        .log_event(processor, batch_id, EventType::Shipped)
        .unwrap();

    // Step 5: Packager receives and packages
    contract
        .log_event(packager, batch_id, EventType::Received)
        .unwrap();

    // Step 6: Distribute to multiple distributors
    contract
        .log_event(packager, batch_id, EventType::Shipped)
        .unwrap();

    // Step 7: Distributor A receives
    contract
        .log_event(distributor_a, batch_id, EventType::Received)
        .unwrap();

    // Step 8: Ship to supermarket
    contract
        .log_event(distributor_a, batch_id, EventType::Shipped)
        .unwrap();

    // Step 9: Supermarket receives final product
    contract
        .log_event(supermarket, batch_id, EventType::Received)
        .unwrap();
    contract
        .log_event(supermarket, batch_id, EventType::Delivered)
        .unwrap();

    // Verify complete traceability
    let final_product = contract.get_product(batch_id).unwrap();
    assert_eq!(final_product.0, supermarket); // current owner
    assert_eq!(final_product.1, farmer); // original producer
    assert_eq!(final_product.4, 12); // total events tracked

    // Verify product can be traced back to original farmer
    assert_eq!(contract.get_products_by_manufacturer(farmer), vec![batch_id]);
    assert!(contract.verify_product(batch_id));
}

#[test]
fn pharmaceutical_compliance_tracking() {
    let mut contract = PolkaTrace::new(account(1));
    let admin = account(1);

    // Pharmaceutical supply chain actors
    let pharma_manufacturer = account(20);
    let quality_control = account(21);
    let pharmaceutical_distributor = account(22);
    let pharmacy = account(23);
    let patient = account(24);

    // Authorize participants
    contract
        .add_authorized_account(admin, pharma_manufacturer)
        .unwrap();
    contract
        .add_authorized_account(admin, quality_control)
        .unwrap();
    contract
        .add_authorized_account(admin, pharmaceutical_distributor)
        .unwrap();
    contract.add_authorized_account(admin, pharmacy).unwrap();
    contract.add_authorized_account(admin, patient).unwrap();

    // Create pharmaceutical batch
    let drug_batch_id = contract
        .register_product(
            pharma_manufacturer,
            0,
            b"Aspirin 500mg - Batch #RX2024001 - Mfg Date: 2024-01-15 - Exp: 2026-01-15"
                .to_vec(),
        )
        .unwrap();

    // Quality control verification
    contract
        .log_event(quality_control, drug_batch_id, EventType::Inspected)
        .unwrap();
    contract
        .log_event(quality_control, drug_batch_id, EventType::Verified)
        .unwrap();

    // Distribution chain
    contract
        .log_event(pharmaceutical_distributor, drug_batch_id, EventType::Received)
        .unwrap();
    contract
        .log_event(pharmaceutical_distributor, drug_batch_id, EventType::Shipped)
        .unwrap();

    // Pharmacy receives
    contract
        .log_event(pharmacy, drug_batch_id, EventType::Received)
        .unwrap();
    contract
        .log_event(pharmacy, drug_batch_id, EventType::Inspected)
        .unwrap();

    // Patient receives prescription
    contract
        .log_event(patient, drug_batch_id, EventType::Received)
        .unwrap();
    contract
        .log_event(patient, drug_batch_id, EventType::Delivered)
        .unwrap();

    // Verify complete pharmaceutical traceability
    let drug_product = contract.get_product(drug_batch_id).unwrap();
    assert_eq!(drug_product.0, patient); // final recipient
    assert_eq!(drug_product.1, pharma_manufacturer); // original manufacturer
    assert_eq!(drug_product.4, 9); // All compliance steps tracked

    // Critical for pharmaceutical compliance - can trace back to manufacturer
    assert!(contract.verify_product(drug_batch_id));
    assert_eq!(
        contract.get_products_by_manufacturer(pharma_manufacturer),
        vec![drug_batch_id]
    );
}

#[test]
fn stress_test_multiple_products_and_events() {
    let mut contract = PolkaTrace::new(account(1));
    let admin = account(1);

    // Authorize a distributor
    contract.add_authorized_account(admin, distributor()).unwrap();

    // Create 10 products
    let mut product_ids = Vec::new();

    for i in 0..10 {
        let metadata = format!("Product #{} - Test Item", i).into_bytes();
        let product_id = contract.register_product(manufacturer(), 0, metadata).unwrap();
        product_ids.push(product_id);
    }

    // Verify all products were created
    assert_eq!(product_ids.len(), 10);
    assert_eq!(contract.get_products_by_manufacturer(manufacturer()).len(), 10);

    // Log multiple events for each product
    for product_id in &product_ids {
        // Ship and receive each product
        contract
            .log_event(distributor(), *product_id, EventType::Shipped)
            .unwrap();
        contract
            .log_event(distributor(), *product_id, EventType::InTransit)
            .unwrap();
        contract
            .log_event(distributor(), *product_id, EventType::Received)
            .unwrap();
    }

    // Verify all products transferred to distributor
    assert_eq!(contract.get_products_by_owner(distributor()).len(), 10);
    assert_eq!(contract.get_products_by_owner(manufacturer()).len(), 0);

    // Verify event counts
    for product_id in &product_ids {
        let product = contract.get_product(*product_id).unwrap();
        assert_eq!(product.4, 4); // created + shipped + transit + received
        assert_eq!(product.0, distributor()); // current owner
        assert_eq!(product.1, manufacturer()); // original manufacturer
    }
}

#[test]
fn overflow_protection_tests() {
    let mut contract = PolkaTrace::new(account(1));
    let admin = account(1);

    // Test product ID overflow protection
    contract.registry.next_product_id = u128::MAX;
    let metadata = b"Test Product".to_vec();

    let result = contract.register_product(manufacturer(), 0, metadata);
    assert!(result.is_ok());

    // Should handle overflow gracefully
    assert_eq!(contract.registry.next_product_id, u128::MAX);

    // Test event count overflow protection
    let product_id = result.unwrap();
    for p in contract.registry.products.iter_mut() {
        if p.id == product_id {
            p.event_count = u32::MAX;
        }
    }

    contract.add_authorized_account(admin, distributor()).unwrap();

    // Should handle event count overflow gracefully
    let log_result = contract.log_event(distributor(), product_id, EventType::Shipped);
    assert!(log_result.is_ok());

    let product = contract.get_product(product_id).unwrap();
    assert_eq!(product.4, u32::MAX); // Should not overflow
}
