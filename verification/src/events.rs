//! The chain listener: every log that a chain delivers is decoded and recorded.
//!
//! A deposit log becomes a deposit record under the listener's chain. A
//! distribution log becomes a distribution record, and its nonce enters the
//! ledger of processed nonces: a transfer counts as complete when the
//! destination chain is seen to confirm it, not when a release was submitted.
//! Logs are taken strictly in the order of delivery, and the first log that
//! cannot be decoded or recorded ends the listener with its error.

use vstd::prelude::*;
use crate::abi::{
    decode_deposit, decode_distribution, decoded_deposit, decoded_distribution, DecodeError,
    EventLayout, EventLayoutView, RawLog, RawLogView, signature_text,
};
use crate::database::{
    deposit_record_of, distribution_record_of, insert_pending_transaction,
    mark_transaction_processed, store_deposit_event, store_distribution_event, EventStore,
    EventStoreView, StoreError,
};
use crate::models::{Address, DepositEvent, DistributionEvent};

verus! {

/// Why a listener stopped.
#[derive(Clone, Copy, Debug, PartialEq, Eq)]
pub enum ListenerError {
    /// A log was not the event it was delivered as.
    Decode(DecodeError),
    /// An event could not be recorded.
    Store(StoreError),
}

/// What became of a deposit that was handed to the store.
#[derive(Clone, Copy, Debug, PartialEq, Eq)]
pub struct DepositReceipt {
    pub nonce: u64,
    /// The deposit was not recorded before.
    pub stored: bool,
    /// The chain originates transfers and the ledger does not hold the nonce.
    pub pending: bool,
}

/// What became of a distribution that was handed to the store.
#[derive(Clone, Copy, Debug, PartialEq, Eq)]
pub struct DistributionReceipt {
    pub nonce: u64,
    /// The distribution was not recorded before.
    pub stored: bool,
    /// The nonce was not in the ledger before.
    pub marked: bool,
}

/// The store after a deposit was observed on `chain`.
pub open spec fn deposit_recorded(store: EventStoreView, chain: Seq<char>, event: DepositEvent) -> Result<
    EventStoreView,
    StoreError,
> {
    match deposit_record_of(event, chain) {
        Ok(record) => Ok(store.put_deposit(record)),
        Err(e) => Err(e),
    }
}

/// The receipt for a deposit observed on `chain`.
pub open spec fn deposit_receipt(
    store: EventStoreView,
    chain: Seq<char>,
    event: DepositEvent,
    is_source_chain: bool,
) -> DepositReceipt {
    DepositReceipt {
        nonce: event.nonce.value() as u64,
        stored: !store.has_deposit(event.nonce.value() as int, chain),
        pending: is_source_chain && !store.is_processed(event.nonce.value() as int),
    }
}

/// The store after a distribution was observed: the distribution is
/// recorded and its nonce is in the ledger.
pub open spec fn distribution_recorded(store: EventStoreView, event: DistributionEvent) -> Result<
    EventStoreView,
    StoreError,
> {
    match distribution_record_of(event) {
        Ok(record) => Ok(store.put_distribution(record).mark_processed(record.nonce as u64)),
        Err(e) => Err(e),
    }
}

/// The receipt for an observed distribution.
pub open spec fn distribution_receipt(store: EventStoreView, event: DistributionEvent) -> DistributionReceipt {
    DistributionReceipt {
        nonce: event.nonce.value() as u64,
        stored: !store.has_distribution(event.nonce.value() as int),
        marked: !store.is_processed(event.nonce.value() as int),
    }
}

/// Records a decoded deposit under `chain_name`. On a chain that originates
/// transfers the ledger is also asked whether the nonce is still open;
/// nothing is written for that.
pub fn record_deposit(
    store: &mut EventStore,
    chain_name: &str,
    event: &DepositEvent,
    is_source_chain: bool,
) -> (receipt: Result<DepositReceipt, StoreError>)
    ensures
        match deposit_recorded(old(store)@, chain_name@, *event) {
            Ok(next) => final(store)@ == next && receipt == Ok::<DepositReceipt, StoreError>(
                deposit_receipt(old(store)@, chain_name@, *event, is_source_chain),
            ),
            Err(e) => final(store)@ == old(store)@ && receipt == Err::<DepositReceipt, StoreError>(e),
        },
{
    let stored = store_deposit_event(store, event, chain_name)?;
    let nonce = match event.nonce.to_i64() {
        Some(n) => n as u64,
        None => { return Err(StoreError::NonceOutOfRange); },
    };
    let pending = if is_source_chain {
        insert_pending_transaction(store, nonce)
    } else {
        false
    };
    assert(store@.processed == old(store)@.processed);
    Ok(DepositReceipt { nonce, stored, pending })
}

/// Records a decoded distribution and enters its nonce into the ledger of processed nonces.
pub fn record_distribution(store: &mut EventStore, event: &DistributionEvent) -> (receipt: Result<
    DistributionReceipt,
    StoreError,
>)
    ensures
        match distribution_recorded(old(store)@, *event) {
            Ok(next) => final(store)@ == next && receipt == Ok::<DistributionReceipt, StoreError>(
                distribution_receipt(old(store)@, *event),
            ),
            Err(e) => final(store)@ == old(store)@ && receipt == Err::<
                DistributionReceipt,
                StoreError,
            >(e),
        },
{
    let stored = store_distribution_event(store, event)?;
    let nonce = match event.nonce.to_i64() {
        Some(n) => n as u64,
        None => { return Err(StoreError::NonceOutOfRange); },
    };
    let marked = mark_transaction_processed(store, nonce);
    Ok(DistributionReceipt { nonce, stored, marked })
}

/// The store after a deposit log was delivered on `chain`, or the error that ends the listener.
pub open spec fn deposit_delivery(
    store: EventStoreView,
    chain: Seq<char>,
    layout: EventLayoutView,
    log: RawLogView,
) -> Result<EventStoreView, ListenerError> {
    match decoded_deposit(layout, log) {
        Ok(event) => match deposit_recorded(store, chain, event) {
            Ok(next) => Ok(next),
            Err(e) => Err(ListenerError::Store(e)),
        },
        Err(e) => Err(ListenerError::Decode(e)),
    }
}

/// The store after a distribution log was delivered, or the error that ends the listener.
pub open spec fn distribution_delivery(
    store: EventStoreView,
    layout: EventLayoutView,
    log: RawLogView,
) -> Result<EventStoreView, ListenerError> {
    match decoded_distribution(layout, log) {
        Ok(event) => match distribution_recorded(store, event) {
            Ok(next) => Ok(next),
            Err(e) => Err(ListenerError::Store(e)),
        },
        Err(e) => Err(ListenerError::Decode(e)),
    }
}

/// Decodes one deposit log and records it under `chain_name`.
pub fn process_deposit_log(
    store: &mut EventStore,
    chain_name: &str,
    layout: &EventLayout,
    log: &RawLog,
    is_source_chain: bool,
) -> (receipt: Result<DepositReceipt, ListenerError>)
    ensures
        match deposit_delivery(old(store)@, chain_name@, layout@, log@) {
            Ok(next) => final(store)@ == next && receipt == Ok::<DepositReceipt, ListenerError>(
                deposit_receipt(
                    old(store)@,
                    chain_name@,
                    decoded_deposit(layout@, log@)->Ok_0,
                    is_source_chain,
                ),
            ),
            Err(e) => final(store)@ == old(store)@ && receipt == Err::<
                DepositReceipt,
                ListenerError,
            >(e),
        },
{
    match decode_deposit(layout, log) {
        Ok(event) => match record_deposit(store, chain_name, &event, is_source_chain) {
            Ok(receipt) => Ok(receipt),
            Err(e) => Err(ListenerError::Store(e)),
        },
        Err(e) => Err(ListenerError::Decode(e)),
    }
}

/// Decodes one distribution log, records it and marks its nonce processed.
pub fn process_distribution_log(store: &mut EventStore, layout: &EventLayout, log: &RawLog) -> (receipt:
    Result<DistributionReceipt, ListenerError>)
    ensures
        match distribution_delivery(old(store)@, layout@, log@) {
            Ok(next) => final(store)@ == next && receipt == Ok::<
                DistributionReceipt,
                ListenerError,
            >(distribution_receipt(old(store)@, decoded_distribution(layout@, log@)->Ok_0)),
            Err(e) => final(store)@ == old(store)@ && receipt == Err::<
                DistributionReceipt,
                ListenerError,
            >(e),
        },
{
    match decode_distribution(layout, log) {
        Ok(event) => match record_distribution(store, &event) {
            Ok(receipt) => Ok(receipt),
            Err(e) => Err(ListenerError::Store(e)),
        },
        Err(e) => Err(ListenerError::Decode(e)),
    }
}

/// The contents of delivered logs.
pub open spec fn log_views(logs: Seq<RawLog>) -> Seq<RawLogView> {
    logs.map_values(|l: RawLog| l@)
}

/// The store after the deposit logs from place `from` on were delivered in
/// order, and the error of the first log that failed, after which no log is taken.
pub open spec fn deposit_run(
    store: EventStoreView,
    chain: Seq<char>,
    layout: EventLayoutView,
    logs: Seq<RawLogView>,
    from: int,
) -> (EventStoreView, Option<ListenerError>)
    decreases logs.len() - from,
{
    if from < 0 || from >= logs.len() {
        (store, None)
    } else {
        match deposit_delivery(store, chain, layout, logs[from]) {
            Ok(next) => deposit_run(next, chain, layout, logs, from + 1),
            Err(e) => (store, Some(e)),
        }
    }
}

/// The store after the distribution logs from place `from` on were delivered
/// in order, and the error of the first log that failed.
pub open spec fn distribution_run(
    store: EventStoreView,
    layout: EventLayoutView,
    logs: Seq<RawLogView>,
    from: int,
) -> (EventStoreView, Option<ListenerError>)
    decreases logs.len() - from,
{
    if from < 0 || from >= logs.len() {
        (store, None)
    } else {
        match distribution_delivery(store, layout, logs[from]) {
            Ok(next) => distribution_run(next, layout, logs, from + 1),
            Err(e) => (store, Some(e)),
        }
    }
}

/// What a listener returns after a run.
pub open spec fn run_outcome(failure: Option<ListenerError>) -> Result<(), ListenerError> {
    match failure {
        Some(e) => Err(e),
        None => Ok(()),
    }
}

/// Takes the deposit logs of one chain in the order of delivery. Stops at the
/// first log that fails, with the earlier ones recorded.
pub fn process_deposit_events(
    store: &mut EventStore,
    chain_name: &str,
    layout: &EventLayout,
    logs: &Vec<RawLog>,
    is_source_chain: bool,
) -> (outcome: Result<(), ListenerError>)
    ensures
        final(store)@ == deposit_run(old(store)@, chain_name@, layout@, log_views(logs@), 0).0,
        outcome == run_outcome(
            deposit_run(old(store)@, chain_name@, layout@, log_views(logs@), 0).1,
        ),
{
    let mut i: usize = 0;
    while i < logs.len()
        invariant
            i <= logs.len(),
            deposit_run(old(store)@, chain_name@, layout@, log_views(logs@), 0) == deposit_run(
                store@,
                chain_name@,
                layout@,
                log_views(logs@),
                i as int,
            ),
        decreases logs.len() - i,
    {
        assert(log_views(logs@)[i as int] == logs@[i as int]@);
        match process_deposit_log(store, chain_name, layout, &logs[i], is_source_chain) {
            Ok(_) => {},
            Err(e) => {
                return Err(e);
            },
        }
        i = i + 1;
    }
    Ok(())
}

/// Takes the distribution logs of one chain in the order of delivery. Stops
/// at the first log that fails, with the earlier ones recorded.
pub fn process_distribution_events(store: &mut EventStore, layout: &EventLayout, logs: &Vec<RawLog>) -> (outcome:
    Result<(), ListenerError>)
    ensures
        final(store)@ == distribution_run(old(store)@, layout@, log_views(logs@), 0).0,
        outcome == run_outcome(distribution_run(old(store)@, layout@, log_views(logs@), 0).1),
{
    let mut i: usize = 0;
    while i < logs.len()
        invariant
            i <= logs.len(),
            distribution_run(old(store)@, layout@, log_views(logs@), 0) == distribution_run(
                store@,
                layout@,
                log_views(logs@),
                i as int,
            ),
        decreases logs.len() - i,
    {
        assert(log_views(logs@)[i as int] == logs@[i as int]@);
        match process_distribution_log(store, layout, &logs[i]) {
            Ok(_) => {},
            Err(e) => {
                return Err(e);
            },
        }
        i = i + 1;
    }
    Ok(())
}

/// What a listener subscribes to: the logs of one event of one contract.
#[derive(Clone, Debug, PartialEq, Eq)]
pub struct LogFilter {
    pub address: Address,
    pub event_signature: String,
}

/// The listener of one chain.
#[derive(Clone, Debug, PartialEq, Eq)]
pub struct ChainListener {
    pub chain_name: String,
    /// The bridge contract on this chain, whose logs are listened to.
    pub local_bridge: Address,
    /// The bridge contract on the peer chain.
    pub remote_bridge: Address,
    /// Whether transfers originate on this chain.
    pub is_source_chain: bool,
    /// The layout of the `Deposit` event.
    pub deposit: EventLayout,
    /// The layout of the `Distribution` event.
    pub distribution: EventLayout,
}

/// Mathematical content of a [`ChainListener`].
pub struct ChainListenerView {
    pub chain_name: Seq<char>,
    pub local_bridge: Address,
    pub remote_bridge: Address,
    pub is_source_chain: bool,
    pub deposit: EventLayoutView,
    pub distribution: EventLayoutView,
}

impl View for ChainListener {
    type V = ChainListenerView;

    open spec fn view(&self) -> ChainListenerView {
        ChainListenerView {
            chain_name: self.chain_name@,
            local_bridge: self.local_bridge,
            remote_bridge: self.remote_bridge,
            is_source_chain: self.is_source_chain,
            deposit: self.deposit@,
            distribution: self.distribution@,
        }
    }
}

/// A log as one of the listener's two subscriptions delivered it.
#[derive(Clone, Debug, PartialEq, Eq)]
pub enum Delivery {
    Deposit(RawLog),
    Distribution(RawLog),
}

/// Mathematical content of a [`Delivery`].
pub enum DeliveryView {
    Deposit(RawLogView),
    Distribution(RawLogView),
}

impl View for Delivery {
    type V = DeliveryView;

    open spec fn view(&self) -> DeliveryView {
        match self {
            Delivery::Deposit(log) => DeliveryView::Deposit(log@),
            Delivery::Distribution(log) => DeliveryView::Distribution(log@),
        }
    }
}

/// The contents of deliveries.
pub open spec fn delivery_views(deliveries: Seq<Delivery>) -> Seq<DeliveryView> {
    deliveries.map_values(|d: Delivery| d@)
}

/// The store after one delivery, or the error that ends the listener.
pub open spec fn delivery_step(
    store: EventStoreView,
    listener: ChainListenerView,
    delivery: DeliveryView,
) -> Result<EventStoreView, ListenerError> {
    match delivery {
        DeliveryView::Deposit(log) => deposit_delivery(
            store,
            listener.chain_name,
            listener.deposit,
            log,
        ),
        DeliveryView::Distribution(log) => distribution_delivery(store, listener.distribution, log),
    }
}

/// The store after the deliveries from place `from` on, in whatever way the
/// two subscriptions interleaved, and the error of the first that failed.
pub open spec fn listener_run(
    store: EventStoreView,
    listener: ChainListenerView,
    deliveries: Seq<DeliveryView>,
    from: int,
) -> (EventStoreView, Option<ListenerError>)
    decreases deliveries.len() - from,
{
    if from < 0 || from >= deliveries.len() {
        (store, None)
    } else {
        match delivery_step(store, listener, deliveries[from]) {
            Ok(next) => listener_run(next, listener, deliveries, from + 1),
            Err(e) => (store, Some(e)),
        }
    }
}

impl ChainListener {
    /// The subscription to the `Deposit` logs of the local bridge.
    pub fn deposit_filter(&self) -> (filter: LogFilter)
        ensures
            filter.address == self.local_bridge,
            filter.event_signature@ == signature_text(self.deposit@),
    {
        LogFilter { address: self.local_bridge, event_signature: self.deposit.abi_signature() }
    }

    /// The subscription to the `Distribution` logs of the local bridge.
    pub fn distribution_filter(&self) -> (filter: LogFilter)
        ensures
            filter.address == self.local_bridge,
            filter.event_signature@ == signature_text(self.distribution@),
    {
        LogFilter { address: self.local_bridge, event_signature: self.distribution.abi_signature() }
    }
}

/// Runs the listener of one chain over what its two subscriptions delivered,
/// in the order of delivery. Stops at the first delivery that fails, with the
/// earlier ones recorded.
pub fn listen_for_events(
    store: &mut EventStore,
    listener: &ChainListener,
    deliveries: &Vec<Delivery>,
) -> (outcome: Result<(), ListenerError>)
    ensures
        final(store)@ == listener_run(old(store)@, listener@, delivery_views(deliveries@), 0).0,
        outcome == run_outcome(
            listener_run(old(store)@, listener@, delivery_views(deliveries@), 0).1,
        ),
{
    let mut i: usize = 0;
    while i < deliveries.len()
        invariant
            i <= deliveries.len(),
            listener_run(old(store)@, listener@, delivery_views(deliveries@), 0) == listener_run(
                store@,
                listener@,
                delivery_views(deliveries@),
                i as int,
            ),
        decreases deliveries.len() - i,
    {
        assert(delivery_views(deliveries@)[i as int] == deliveries@[i as int]@);
        match &deliveries[i] {
            Delivery::Deposit(log) => {
                match process_deposit_log(
                    store,
                    listener.chain_name.as_str(),
                    &listener.deposit,
                    log,
                    listener.is_source_chain,
                ) {
                    Ok(_) => {},
                    Err(e) => {
                        return Err(e);
                    },
                }
            },
            Delivery::Distribution(log) => {
                match process_distribution_log(store, &listener.distribution, log) {
                    Ok(_) => {},
                    Err(e) => {
                        return Err(e);
                    },
                }
            },
        }
        i = i + 1;
    }
    Ok(())
}

} // verus!
