use bridge_indexer::database::{mark_transaction_processed, store_deposit_event, EventStore};
use bridge_indexer::models::{Address, DepositEvent, U256};
use bridge_indexer::processor::{
    process_pending_transactions, wait_for_finality, Chain, DistributeCall, RelayAction,
    RelayConfig, RelayEvent, RelayProcessor, RelayState, Route,
};

fn bridge(byte: u8) -> Address {
    Address { bytes: [byte; 20] }
}

fn relay_config() -> RelayConfig {
    RelayConfig::new(bridge(0x5e), bridge(0x40))
}

fn hex_of(byte_pair: &str) -> String {
    format!("0x{}", byte_pair.repeat(20))
}

fn lock(nonce: u64, amount: u64) -> DepositEvent {
    DepositEvent {
        token: bridge(0x11),
        from: bridge(0xaa),
        to: bridge(0xbb),
        amount: U256 { limbs: [amount, 0, 0, 0] },
        nonce: U256 { limbs: [nonce, 0, 0, 0] },
    }
}

fn release(chain: Chain, to_bridge: u8, nonce: i64, amount: i64) -> RelayAction {
    RelayAction::Submit(DistributeCall {
        chain,
        bridge: bridge(to_bridge),
        token: hex_of("11"),
        to: hex_of("bb"),
        amount,
        nonce,
    })
}

#[test]
fn the_configuration_defaults_to_two_confirmations_and_fifteen_seconds() {
    let config = relay_config();
    assert_eq!(config.confirmations, 2);
    assert_eq!(config.poll_seconds, 15);
    assert_eq!(config.sepolia_bridge, bridge(0x5e));
    assert_eq!(config.holesky_bridge, bridge(0x40));
}

#[test]
fn finality_needs_the_full_count_of_confirmations() {
    assert!(!wait_for_finality(10, 2, 10));
    assert!(!wait_for_finality(10, 2, 11));
    assert!(wait_for_finality(10, 2, 12));
    assert!(wait_for_finality(10, 2, 13));
    assert!(wait_for_finality(10, 0, 10));
    assert!(!wait_for_finality(10, 0, 9));
    assert!(wait_for_finality(0, 0, 0));
}

#[test]
fn finality_is_never_reached_beyond_the_last_height() {
    assert!(!wait_for_finality(u64::MAX, 1, u64::MAX));
    assert!(!wait_for_finality(u64::MAX - 1, 2, u64::MAX));
    assert!(wait_for_finality(u64::MAX - 2, 2, u64::MAX));
    assert!(!wait_for_finality(1, u64::MAX, u64::MAX));
}

#[test]
fn a_deposit_on_sepolia_goes_to_holesky() {
    let config = relay_config();
    assert_eq!(
        config.route(&"Sepolia".to_string()),
        Route { source: Chain::Sepolia, destination: Chain::Holesky, bridge: bridge(0x40) }
    );
}

#[test]
fn a_deposit_on_any_other_chain_goes_to_sepolia() {
    let config = relay_config();
    let back = Route { source: Chain::Holesky, destination: Chain::Sepolia, bridge: bridge(0x5e) };
    assert_eq!(config.route(&"Holesky".to_string()), back);
    assert_eq!(config.route(&"sepolia".to_string()), back);
    assert_eq!(config.route(&"Sepolia ".to_string()), back);
    assert_eq!(config.route(&String::new()), back);
}

#[test]
fn a_tick_with_nothing_pending_waits_for_the_next_tick() {
    let store = EventStore::new();
    let mut processor = RelayProcessor::new(relay_config());
    assert_eq!(processor.state, RelayState::Idle);
    let action = process_pending_transactions(&mut processor, &store, RelayEvent::Tick);
    assert_eq!(action, RelayAction::AwaitTick);
    assert_eq!(processor.state, RelayState::Idle);
}

#[test]
fn a_processed_deposit_is_not_relayed() {
    let mut store = EventStore::new();
    store_deposit_event(&mut store, &lock(7, 100), "Sepolia").unwrap();
    mark_transaction_processed(&mut store, 7);
    let mut processor = RelayProcessor::new(relay_config());
    let action = process_pending_transactions(&mut processor, &store, RelayEvent::Tick);
    assert_eq!(action, RelayAction::AwaitTick);
}

#[test]
fn a_release_waits_for_two_confirmations() {
    let mut store = EventStore::new();
    store_deposit_event(&mut store, &lock(7, 100), "Sepolia").unwrap();
    let mut processor = RelayProcessor::new(relay_config());

    let action = process_pending_transactions(&mut processor, &store, RelayEvent::Tick);
    assert_eq!(action, RelayAction::QueryHeight(Chain::Sepolia));
    let action = process_pending_transactions(&mut processor, &store, RelayEvent::Height(50));
    assert_eq!(action, RelayAction::QueryHeight(Chain::Sepolia));
    let action = process_pending_transactions(&mut processor, &store, RelayEvent::Height(50));
    assert_eq!(action, RelayAction::Sleep(15));
    let action = process_pending_transactions(&mut processor, &store, RelayEvent::Slept);
    assert_eq!(action, RelayAction::QueryHeight(Chain::Sepolia));
    let action = process_pending_transactions(&mut processor, &store, RelayEvent::Height(51));
    assert_eq!(action, RelayAction::Sleep(15));
    let action = process_pending_transactions(&mut processor, &store, RelayEvent::Slept);
    assert_eq!(action, RelayAction::QueryHeight(Chain::Sepolia));
    let action = process_pending_transactions(&mut processor, &store, RelayEvent::Height(52));
    assert_eq!(action, release(Chain::Holesky, 0x40, 7, 100));
    let action = process_pending_transactions(&mut processor, &store, RelayEvent::Receipt(true));
    assert_eq!(action, RelayAction::AwaitTick);
    assert_eq!(processor.state, RelayState::Idle);
}

#[test]
fn a_chain_that_is_already_ahead_is_released_at_the_first_poll() {
    let mut store = EventStore::new();
    store_deposit_event(&mut store, &lock(3, 9), "Holesky").unwrap();
    let mut processor = RelayProcessor::new(relay_config());
    process_pending_transactions(&mut processor, &store, RelayEvent::Tick);
    let action = process_pending_transactions(&mut processor, &store, RelayEvent::Height(10));
    assert_eq!(action, RelayAction::QueryHeight(Chain::Holesky));
    let action = process_pending_transactions(&mut processor, &store, RelayEvent::Height(12));
    assert_eq!(action, release(Chain::Sepolia, 0x5e, 3, 9));
}

#[test]
fn the_wait_counts_from_the_first_height_and_not_from_a_later_one() {
    let mut store = EventStore::new();
    store_deposit_event(&mut store, &lock(3, 9), "Holesky").unwrap();
    let mut config = relay_config();
    config.confirmations = 5;
    config.poll_seconds = 1;
    let mut processor = RelayProcessor::new(config);
    process_pending_transactions(&mut processor, &store, RelayEvent::Tick);
    process_pending_transactions(&mut processor, &store, RelayEvent::Height(100));
    for height in [100, 102, 104] {
        let action = process_pending_transactions(&mut processor, &store, RelayEvent::Height(height));
        assert_eq!(action, RelayAction::Sleep(1));
        let action = process_pending_transactions(&mut processor, &store, RelayEvent::Slept);
        assert_eq!(action, RelayAction::QueryHeight(Chain::Holesky));
    }
    let action = process_pending_transactions(&mut processor, &store, RelayEvent::Height(105));
    assert_eq!(action, release(Chain::Sepolia, 0x5e, 3, 9));
}

#[test]
fn a_missing_receipt_moves_on_and_the_pair_comes_back_at_the_next_tick() {
    let mut store = EventStore::new();
    store_deposit_event(&mut store, &lock(7, 100), "Sepolia").unwrap();
    let mut processor = RelayProcessor::new(relay_config());
    process_pending_transactions(&mut processor, &store, RelayEvent::Tick);
    process_pending_transactions(&mut processor, &store, RelayEvent::Height(1));
    let action = process_pending_transactions(&mut processor, &store, RelayEvent::Height(3));
    assert_eq!(action, release(Chain::Holesky, 0x40, 7, 100));
    let action = process_pending_transactions(&mut processor, &store, RelayEvent::Receipt(false));
    assert_eq!(action, RelayAction::AwaitTick);
    let action = process_pending_transactions(&mut processor, &store, RelayEvent::Tick);
    assert_eq!(action, RelayAction::QueryHeight(Chain::Sepolia));
}

#[test]
fn a_sweep_takes_the_pending_pairs_one_after_the_other() {
    let mut store = EventStore::new();
    store_deposit_event(&mut store, &lock(7, 100), "Sepolia").unwrap();
    store_deposit_event(&mut store, &lock(8, 200), "Holesky").unwrap();
    store_deposit_event(&mut store, &lock(9, 300), "Sepolia").unwrap();
    mark_transaction_processed(&mut store, 8);
    let mut processor = RelayProcessor::new(relay_config());

    let action = process_pending_transactions(&mut processor, &store, RelayEvent::Tick);
    assert_eq!(action, RelayAction::QueryHeight(Chain::Sepolia));
    process_pending_transactions(&mut processor, &store, RelayEvent::Height(1));
    let action = process_pending_transactions(&mut processor, &store, RelayEvent::Height(3));
    assert_eq!(action, release(Chain::Holesky, 0x40, 7, 100));
    let action = process_pending_transactions(&mut processor, &store, RelayEvent::Receipt(true));
    assert_eq!(action, RelayAction::QueryHeight(Chain::Sepolia));
    process_pending_transactions(&mut processor, &store, RelayEvent::Height(3));
    let action = process_pending_transactions(&mut processor, &store, RelayEvent::Height(5));
    assert_eq!(action, release(Chain::Holesky, 0x40, 9, 300));
    let action = process_pending_transactions(&mut processor, &store, RelayEvent::Receipt(true));
    assert_eq!(action, RelayAction::AwaitTick);
}

#[test]
fn a_sweep_keeps_the_pairs_it_found_when_it_began() {
    let mut store = EventStore::new();
    store_deposit_event(&mut store, &lock(7, 100), "Sepolia").unwrap();
    store_deposit_event(&mut store, &lock(8, 200), "Holesky").unwrap();
    let mut processor = RelayProcessor::new(relay_config());
    process_pending_transactions(&mut processor, &store, RelayEvent::Tick);
    process_pending_transactions(&mut processor, &store, RelayEvent::Height(1));
    process_pending_transactions(&mut processor, &store, RelayEvent::Height(3));
    mark_transaction_processed(&mut store, 8);
    store_deposit_event(&mut store, &lock(9, 300), "Sepolia").unwrap();
    let action = process_pending_transactions(&mut processor, &store, RelayEvent::Receipt(true));
    assert_eq!(action, RelayAction::QueryHeight(Chain::Holesky));
    process_pending_transactions(&mut processor, &store, RelayEvent::Height(1));
    let action = process_pending_transactions(&mut processor, &store, RelayEvent::Height(3));
    assert_eq!(action, release(Chain::Sepolia, 0x5e, 8, 200));
    let action = process_pending_transactions(&mut processor, &store, RelayEvent::Receipt(true));
    assert_eq!(action, RelayAction::AwaitTick);
}

#[test]
fn an_event_that_is_not_awaited_changes_nothing() {
    let mut store = EventStore::new();
    store_deposit_event(&mut store, &lock(7, 100), "Sepolia").unwrap();
    let mut processor = RelayProcessor::new(relay_config());
    for event in [RelayEvent::Height(5), RelayEvent::Slept, RelayEvent::Receipt(true)] {
        let action = process_pending_transactions(&mut processor, &store, event);
        assert_eq!(action, RelayAction::Unexpected);
        assert_eq!(processor.state, RelayState::Idle);
    }
    process_pending_transactions(&mut processor, &store, RelayEvent::Tick);
    let sampling = processor.state.clone();
    for event in [RelayEvent::Tick, RelayEvent::Slept, RelayEvent::Receipt(false)] {
        let action = process_pending_transactions(&mut processor, &store, event);
        assert_eq!(action, RelayAction::Unexpected);
        assert_eq!(processor.state, sampling);
    }
    process_pending_transactions(&mut processor, &store, RelayEvent::Height(1));
    process_pending_transactions(&mut processor, &store, RelayEvent::Height(1));
    let sleeping = processor.state.clone();
    for event in [RelayEvent::Tick, RelayEvent::Height(9), RelayEvent::Receipt(true)] {
        let action = process_pending_transactions(&mut processor, &store, event);
        assert_eq!(action, RelayAction::Unexpected);
        assert_eq!(processor.state, sleeping);
    }
    process_pending_transactions(&mut processor, &store, RelayEvent::Slept);
    process_pending_transactions(&mut processor, &store, RelayEvent::Height(3));
    let submitting = processor.state.clone();
    for event in [RelayEvent::Tick, RelayEvent::Height(9), RelayEvent::Slept] {
        let action = process_pending_transactions(&mut processor, &store, event);
        assert_eq!(action, RelayAction::Unexpected);
        assert_eq!(processor.state, submitting);
    }
}

#[test]
fn a_new_processor_finds_what_an_earlier_one_left_unfinished() {
    let mut store = EventStore::new();
    store_deposit_event(&mut store, &lock(7, 100), "Sepolia").unwrap();
    let mut first = RelayProcessor::new(relay_config());
    process_pending_transactions(&mut first, &store, RelayEvent::Tick);
    process_pending_transactions(&mut first, &store, RelayEvent::Height(1));
    let action = process_pending_transactions(&mut first, &store, RelayEvent::Height(1));
    assert_eq!(action, RelayAction::Sleep(15));
    drop(first);

    let mut second = RelayProcessor::new(relay_config());
    let action = process_pending_transactions(&mut second, &store, RelayEvent::Tick);
    assert_eq!(action, RelayAction::QueryHeight(Chain::Sepolia));
    process_pending_transactions(&mut second, &store, RelayEvent::Height(4));
    let action = process_pending_transactions(&mut second, &store, RelayEvent::Height(6));
    assert_eq!(action, release(Chain::Holesky, 0x40, 7, 100));
}
