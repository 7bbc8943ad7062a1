use bridge_indexer::database::{
    deposit_record, distribution_record, get_deposit_details, get_pending_transactions,
    insert_pending_transaction, mark_transaction_processed, store_deposit_event,
    store_deposit_record, store_distribution_event, store_distribution_record, DepositRecord,
    DistributionRecord, EventStore, StoreError,
};
use bridge_indexer::models::{Address, DepositDetails, DepositEvent, DistributionEvent, U256};

fn addr(byte: u8) -> Address {
    Address { bytes: [byte; 20] }
}

fn small(value: u64) -> U256 {
    U256 { limbs: [value, 0, 0, 0] }
}

fn deposit(nonce: u64, amount: u64) -> DepositEvent {
    DepositEvent {
        token: addr(0x11),
        from: addr(0xaa),
        to: addr(0xbb),
        amount: small(amount),
        nonce: small(nonce),
    }
}

fn distribution(nonce: u64, amount: u64) -> DistributionEvent {
    DistributionEvent { token: addr(0x11), to: addr(0xbb), amount: small(amount), nonce: small(nonce) }
}

fn text(byte_pair: &str) -> String {
    format!("0x{}", byte_pair.repeat(20))
}

#[test]
fn address_text_is_full_lowercase_hex() {
    assert_eq!(addr(0x11).to_hex(), "0x1111111111111111111111111111111111111111");
    let mut bytes = [0u8; 20];
    bytes[0] = 0x00;
    bytes[1] = 0x0f;
    bytes[2] = 0xa0;
    bytes[3] = 0xff;
    bytes[4] = 0x9c;
    bytes[19] = 0x01;
    assert_eq!(
        Address { bytes }.to_hex(),
        "0x000fa0ff9c000000000000000000000000000001"
    );
    assert_eq!(Address { bytes }.to_hex().len(), 42);
}

#[test]
fn address_text_is_what_the_chain_library_reads_back() {
    let mut bytes = [0u8; 20];
    for (i, b) in bytes.iter_mut().enumerate() {
        *b = (i as u8).wrapping_mul(13).wrapping_add(7);
    }
    let written = Address { bytes }.to_hex();
    let read: ethers::types::Address = written.parse().unwrap();
    assert_eq!(read.0, bytes);
}

#[test]
fn small_values_fit_the_signed_column() {
    assert_eq!(small(0).to_i64(), Some(0));
    assert_eq!(small(100).to_i64(), Some(100));
    assert_eq!(small(i64::MAX as u64).to_i64(), Some(i64::MAX));
    assert_eq!(U256::from_u64(7), small(7));
}

#[test]
fn large_values_do_not_fit_the_signed_column() {
    assert_eq!(small(i64::MAX as u64 + 1).to_i64(), None);
    assert_eq!(small(u64::MAX).to_i64(), None);
    assert_eq!(U256 { limbs: [5, 1, 0, 0] }.to_i64(), None);
    assert_eq!(U256 { limbs: [5, 0, 1, 0] }.to_i64(), None);
    assert_eq!(U256 { limbs: [5, 0, 0, 1] }.to_i64(), None);
}

#[test]
fn deposit_record_holds_the_fields_and_the_chain() {
    let record = deposit_record(&deposit(7, 100), "X").unwrap();
    assert_eq!(
        record,
        DepositRecord {
            details: DepositDetails {
                token: text("11"),
                from: text("aa"),
                to: text("bb"),
                amount: 100,
                nonce: 7,
            },
            chain: "X".to_string(),
        }
    );
}

#[test]
fn distribution_record_holds_the_fields() {
    let record = distribution_record(&distribution(7, 100)).unwrap();
    assert_eq!(
        record,
        DistributionRecord { token: text("11"), to: text("bb"), amount: 100, nonce: 7 }
    );
}

#[test]
fn an_amount_that_does_not_fit_is_refused_before_the_nonce() {
    let mut event = deposit(7, 100);
    event.amount = small(1 << 63);
    assert_eq!(deposit_record(&event, "X"), Err(StoreError::AmountOutOfRange));
    event.nonce = U256 { limbs: [0, 1, 0, 0] };
    assert_eq!(deposit_record(&event, "X"), Err(StoreError::AmountOutOfRange));
    let mut event = distribution(7, 100);
    event.amount = U256 { limbs: [0, 0, 0, 1] };
    event.nonce = small(u64::MAX);
    assert_eq!(distribution_record(&event), Err(StoreError::AmountOutOfRange));
}

#[test]
fn a_nonce_that_does_not_fit_is_refused() {
    let mut event = deposit(7, 100);
    event.nonce = small(1 << 63);
    assert_eq!(deposit_record(&event, "X"), Err(StoreError::NonceOutOfRange));
    let mut store = EventStore::new();
    assert_eq!(store_deposit_event(&mut store, &event, "X"), Err(StoreError::NonceOutOfRange));
    assert!(store.deposits().is_empty());
    let mut event = distribution(7, 100);
    event.nonce = U256 { limbs: [7, 0, 1, 0] };
    assert_eq!(store_distribution_event(&mut store, &event), Err(StoreError::NonceOutOfRange));
    assert!(store.distributions().is_empty());
    assert!(store.processed().is_empty());
}

#[test]
fn a_negative_record_is_refused() {
    let mut store = EventStore::new();
    let mut record = deposit_record(&deposit(7, 100), "X").unwrap();
    record.details.nonce = -1;
    assert_eq!(store_deposit_record(&mut store, record.clone()), Err(StoreError::NonceOutOfRange));
    record.details.amount = -5;
    assert_eq!(store_deposit_record(&mut store, record), Err(StoreError::AmountOutOfRange));
    let mut record = distribution_record(&distribution(7, 100)).unwrap();
    record.nonce = -1;
    assert_eq!(
        store_distribution_record(&mut store, record.clone()),
        Err(StoreError::NonceOutOfRange)
    );
    record.amount = -1;
    assert_eq!(store_distribution_record(&mut store, record), Err(StoreError::AmountOutOfRange));
    assert!(store.deposits().is_empty());
    assert!(store.distributions().is_empty());
}

#[test]
fn a_new_store_is_empty() {
    let store = EventStore::new();
    assert!(store.deposits().is_empty());
    assert!(store.distributions().is_empty());
    assert!(store.processed().is_empty());
    assert!(get_pending_transactions(&store).is_empty());
    assert_eq!(get_deposit_details(&store, 7), None);
    assert!(insert_pending_transaction(&store, 7));
}

#[test]
fn the_same_deposit_twice_is_stored_once() {
    let mut store = EventStore::new();
    assert_eq!(store_deposit_event(&mut store, &deposit(7, 100), "X"), Ok(true));
    assert_eq!(store_deposit_event(&mut store, &deposit(7, 100), "X"), Ok(false));
    assert_eq!(store.deposits().len(), 1);
    assert_eq!(store.deposits()[0], deposit_record(&deposit(7, 100), "X").unwrap());
}

#[test]
fn a_deposit_is_never_overwritten() {
    let mut store = EventStore::new();
    assert_eq!(store_deposit_event(&mut store, &deposit(7, 100), "X"), Ok(true));
    assert_eq!(store_deposit_event(&mut store, &deposit(7, 999), "X"), Ok(false));
    assert_eq!(store.deposits().len(), 1);
    assert_eq!(store.deposits()[0].details.amount, 100);
}

#[test]
fn the_same_nonce_on_two_chains_is_two_deposits() {
    let mut store = EventStore::new();
    assert_eq!(store_deposit_event(&mut store, &deposit(7, 100), "X"), Ok(true));
    assert_eq!(store_deposit_event(&mut store, &deposit(7, 200), "Y"), Ok(true));
    assert_eq!(store_deposit_event(&mut store, &deposit(8, 300), "X"), Ok(true));
    assert_eq!(store.deposits().len(), 3);
    assert_eq!(
        get_pending_transactions(&store),
        vec![(7, "X".to_string()), (7, "Y".to_string()), (8, "X".to_string())]
    );
}

#[test]
fn the_same_distribution_twice_is_stored_once() {
    let mut store = EventStore::new();
    assert_eq!(store_distribution_event(&mut store, &distribution(7, 100)), Ok(true));
    assert_eq!(store_distribution_event(&mut store, &distribution(7, 100)), Ok(false));
    assert_eq!(store_distribution_event(&mut store, &distribution(7, 555)), Ok(false));
    assert_eq!(store.distributions().len(), 1);
    assert_eq!(store.distributions()[0], distribution_record(&distribution(7, 100)).unwrap());
    assert!(store.processed().is_empty());
}

#[test]
fn a_nonce_is_marked_processed_once() {
    let mut store = EventStore::new();
    assert!(insert_pending_transaction(&store, 7));
    assert!(mark_transaction_processed(&mut store, 7));
    assert!(!mark_transaction_processed(&mut store, 7));
    assert!(mark_transaction_processed(&mut store, u64::MAX));
    assert_eq!(store.processed(), &vec![7, u64::MAX]);
    assert!(!insert_pending_transaction(&store, 7));
    assert!(insert_pending_transaction(&store, 8));
}

#[test]
fn a_deposit_is_pending_until_its_nonce_is_processed() {
    let mut store = EventStore::new();
    store_deposit_event(&mut store, &deposit(7, 100), "X").unwrap();
    store_deposit_event(&mut store, &deposit(8, 100), "X").unwrap();
    assert_eq!(
        get_pending_transactions(&store),
        vec![(7, "X".to_string()), (8, "X".to_string())]
    );
    mark_transaction_processed(&mut store, 7);
    assert_eq!(get_pending_transactions(&store), vec![(8, "X".to_string())]);
    mark_transaction_processed(&mut store, 8);
    assert!(get_pending_transactions(&store).is_empty());
    assert_eq!(store.deposits().len(), 2);
}

#[test]
fn pending_does_not_depend_on_the_order_of_the_facts() {
    let mut first = EventStore::new();
    store_deposit_event(&mut first, &deposit(7, 100), "X").unwrap();
    store_deposit_event(&mut first, &deposit(9, 100), "Y").unwrap();
    mark_transaction_processed(&mut first, 7);

    let mut second = EventStore::new();
    mark_transaction_processed(&mut second, 7);
    store_deposit_event(&mut second, &deposit(7, 100), "X").unwrap();
    store_deposit_event(&mut second, &deposit(9, 100), "Y").unwrap();

    assert_eq!(get_pending_transactions(&first), vec![(9, "Y".to_string())]);
    assert_eq!(get_pending_transactions(&second), vec![(9, "Y".to_string())]);
    assert_eq!(first.deposits(), second.deposits());
    assert_eq!(first.processed(), second.processed());
}

#[test]
fn marking_a_nonce_leaves_other_nonces_pending() {
    let mut store = EventStore::new();
    store_deposit_event(&mut store, &deposit(7, 100), "A").unwrap();
    store_distribution_event(&mut store, &distribution(7, 100)).unwrap();
    store_deposit_event(&mut store, &deposit(8, 100), "A").unwrap();
    store_deposit_event(&mut store, &deposit(9, 100), "B").unwrap();
    mark_transaction_processed(&mut store, 7);
    assert_eq!(
        get_pending_transactions(&store),
        vec![(8, "A".to_string()), (9, "B".to_string())]
    );
}

#[test]
fn a_nonce_shared_by_two_chains_leaves_pending_on_both() {
    let mut store = EventStore::new();
    store_deposit_event(&mut store, &deposit(7, 100), "X").unwrap();
    store_deposit_event(&mut store, &deposit(7, 100), "Y").unwrap();
    mark_transaction_processed(&mut store, 7);
    assert!(get_pending_transactions(&store).is_empty());
}

#[test]
fn details_are_those_of_the_first_deposit_with_the_nonce() {
    let mut store = EventStore::new();
    store_deposit_event(&mut store, &deposit(8, 1), "X").unwrap();
    store_deposit_event(&mut store, &deposit(7, 100), "Y").unwrap();
    store_deposit_event(&mut store, &deposit(7, 200), "X").unwrap();
    assert_eq!(
        get_deposit_details(&store, 7),
        Some(DepositDetails {
            token: text("11"),
            from: text("aa"),
            to: text("bb"),
            amount: 100,
            nonce: 7,
        })
    );
    assert_eq!(get_deposit_details(&store, 8).unwrap().amount, 1);
    assert_eq!(get_deposit_details(&store, 9), None);
    assert_eq!(get_deposit_details(&store, u64::MAX), None);
}

#[test]
fn details_stay_after_the_nonce_is_processed() {
    let mut store = EventStore::new();
    store_deposit_event(&mut store, &deposit(7, 100), "X").unwrap();
    mark_transaction_processed(&mut store, 7);
    assert_eq!(get_deposit_details(&store, 7).unwrap().nonce, 7);
}
