//! What holds of the store, of the listener and of the relay processor,
//! whatever they are given.

use vstd::prelude::*;
use crate::abi::{decoded_deposit, decoded_distribution, EventLayoutView, RawLogView};
use crate::database::{
    deposit_record_of, distribution_record_of, first_with_nonce, lemma_pending_members,
    DepositRecordView, DistributionRecordView, EventStoreView,
};
use crate::events::{deposit_delivery, distribution_delivery};
use crate::processor::{
    expects, next_work, relay_step, request, RelayConfig, RelayEvent, RelayStateView, WorkView,
};

verus! {

/// One item of `s` at most meets `p`.
spec fn at_most_one<A>(s: Seq<A>, p: spec_fn(A) -> bool) -> bool {
    forall|i: int, j: int| 0 <= i < j < s.len() ==> !(p(#[trigger] s[i]) && p(#[trigger] s[j]))
}

/// Some item of `s` meets `p`.
spec fn some_meets<A>(s: Seq<A>, p: spec_fn(A) -> bool) -> bool {
    exists|i: int| 0 <= i < s.len() && p(#[trigger] s[i])
}

proof fn lemma_filter_at_most_one<A>(s: Seq<A>, p: spec_fn(A) -> bool)
    requires
        at_most_one(s, p),
    ensures
        s.filter(p).len() == if some_meets(s, p) {
            1nat
        } else {
            0nat
        },
    decreases s.len(),
{
    reveal(Seq::filter);
    if s.len() > 0 {
        let rest = s.drop_last();
        assert forall|i: int, j: int| 0 <= i < j < rest.len() implies !(p(#[trigger] rest[i]) && p(
            #[trigger] rest[j],
        )) by {
            assert(rest[i] == s[i] && rest[j] == s[j]);
        }
        lemma_filter_at_most_one(rest, p);
        if p(s.last()) {
            assert(s[s.len() - 1] == s.last());
            if some_meets(rest, p) {
                let i = choose|i: int| 0 <= i < rest.len() && p(#[trigger] rest[i]);
                assert(rest[i] == s[i]);
                assert(false);
            }
            assert(some_meets(s, p));
        } else {
            if some_meets(s, p) {
                let i = choose|i: int| 0 <= i < s.len() && p(#[trigger] s[i]);
                assert(rest[i] == s[i]);
            }
            if some_meets(rest, p) {
                let i = choose|i: int| 0 <= i < rest.len() && p(#[trigger] rest[i]);
                assert(rest[i] == s[i]);
            }
        }
    }
}

/// An insert-if-absent of a deposit whose nonce and amount are not negative
/// keeps the store well formed.
pub proof fn lemma_put_deposit_keeps_wf(store: EventStoreView, record: DepositRecordView)
    requires
        store.wf(),
        0 <= record.details.nonce,
        0 <= record.details.amount,
    ensures
        store.put_deposit(record).wf(),
{
    let after = store.put_deposit(record);
    if !store.has_deposit(record.details.nonce, record.chain) {
        assert forall|i: int, j: int| 0 <= i < j < after.deposits.len() implies !((
        #[trigger] after.deposits[i]).details.nonce == (#[trigger] after.deposits[j]).details.nonce
            && after.deposits[i].chain == after.deposits[j].chain) by {
            assert(after.deposits[i] == store.deposits[i]);
            if j < store.deposits.len() {
                assert(after.deposits[j] == store.deposits[j]);
            }
        }
        assert forall|i: int| 0 <= i < after.deposits.len() implies 0 <= (
        #[trigger] after.deposits[i]).details.nonce && 0 <= after.deposits[i].details.amount by {
            if i < store.deposits.len() {
                assert(after.deposits[i] == store.deposits[i]);
            }
        }
    }
}

/// An insert-if-absent of a distribution whose nonce and amount are not
/// negative keeps the store well formed.
pub proof fn lemma_put_distribution_keeps_wf(store: EventStoreView, record: DistributionRecordView)
    requires
        store.wf(),
        0 <= record.nonce,
        0 <= record.amount,
    ensures
        store.put_distribution(record).wf(),
{
    let after = store.put_distribution(record);
    if !store.has_distribution(record.nonce) {
        assert forall|i: int, j: int| 0 <= i < j < after.distributions.len() implies (
        #[trigger] after.distributions[i]).nonce != (#[trigger] after.distributions[j]).nonce by {
            assert(after.distributions[i] == store.distributions[i]);
            if j < store.distributions.len() {
                assert(after.distributions[j] == store.distributions[j]);
            }
        }
        assert forall|i: int| 0 <= i < after.distributions.len() implies 0 <= (
        #[trigger] after.distributions[i]).nonce && 0 <= after.distributions[i].amount by {
            if i < store.distributions.len() {
                assert(after.distributions[i] == store.distributions[i]);
            }
        }
    }
}

/// An insert-if-absent into the ledger keeps the store well formed.
pub proof fn lemma_mark_processed_keeps_wf(store: EventStoreView, nonce: u64)
    requires
        store.wf(),
    ensures
        store.mark_processed(nonce).wf(),
{
    let after = store.mark_processed(nonce);
    if !store.is_processed(nonce as int) {
        assert forall|i: int, j: int| 0 <= i < j < after.processed.len() implies #[trigger]
            after.processed[i] != #[trigger] after.processed[j] by {
            assert(after.processed[i] == store.processed[i]);
            if j < store.processed.len() {
                assert(after.processed[j] == store.processed[j]);
            }
        }
    }
}

/// Storing the same deposit a second time changes nothing, and after the
/// first time the store holds exactly one record for its nonce and chain.
pub proof fn lemma_deposit_stored_once(store: EventStoreView, record: DepositRecordView)
    requires
        store.wf(),
        0 <= record.details.nonce,
        0 <= record.details.amount,
    ensures
        store.put_deposit(record).has_deposit(record.details.nonce, record.chain),
        store.put_deposit(record).put_deposit(record) == store.put_deposit(record),
        store.put_deposit(record).deposit_count(record.details.nonce, record.chain) == 1,
{
    let after = store.put_deposit(record);
    lemma_put_deposit_keeps_wf(store, record);
    if !store.has_deposit(record.details.nonce, record.chain) {
        assert(after.deposits[store.deposits.len() as int] == record);
    }
    assert(after.has_deposit(record.details.nonce, record.chain));
    let p = crate::database::keyed(record.details.nonce, record.chain);
    assert(at_most_one(after.deposits, p));
    let i = choose|i: int|
        0 <= i < after.deposits.len() && (#[trigger] after.deposits[i]).details.nonce
            == record.details.nonce && after.deposits[i].chain == record.chain;
    assert(p(after.deposits[i]));
    assert(some_meets(after.deposits, p));
    lemma_filter_at_most_one(after.deposits, p);
}

/// Marking the same nonce a second time changes nothing, and after the first
/// time the ledger holds the nonce exactly once.
pub proof fn lemma_processed_once(store: EventStoreView, nonce: u64)
    requires
        store.wf(),
    ensures
        store.mark_processed(nonce).is_processed(nonce as int),
        store.mark_processed(nonce).mark_processed(nonce) == store.mark_processed(nonce),
        store.mark_processed(nonce).processed_count(nonce as int) == 1,
{
    let after = store.mark_processed(nonce);
    lemma_mark_processed_keeps_wf(store, nonce);
    if !store.is_processed(nonce as int) {
        assert(after.processed[store.processed.len() as int] == nonce);
    }
    assert(after.is_processed(nonce as int));
    let p = crate::database::equal_to(nonce as int);
    assert(at_most_one(after.processed, p));
    let k = choose|k: int| 0 <= k < after.processed.len() && #[trigger] after.processed[k] == nonce;
    assert(p(after.processed[k]));
    assert(some_meets(after.processed, p));
    lemma_filter_at_most_one(after.processed, p);
}

/// A stored deposit whose nonce is not in the ledger is pending; a nonce in
/// the ledger is pending on no chain.
pub proof fn lemma_pending_set(store: EventStoreView, nonce: int, chain: Seq<char>)
    ensures
        store.has_deposit(nonce, chain) && !store.is_processed(nonce) ==> store.pending().contains(
            (nonce, chain),
        ),
        store.is_processed(nonce) ==> !store.pending().contains((nonce, chain)),
        store.pending().contains((nonce, chain)) ==> store.has_deposit(nonce, chain),
{
    lemma_pending_members(store);
}

/// It makes no difference to the store, and so to what is pending, whether a
/// deposit is stored before or after a nonce is marked processed.
pub proof fn lemma_order_of_facts(store: EventStoreView, record: DepositRecordView, nonce: u64)
    ensures
        store.put_deposit(record).mark_processed(nonce) == store.mark_processed(nonce).put_deposit(
            record,
        ),
        store.put_deposit(record).mark_processed(nonce).pending() == store.mark_processed(
            nonce,
        ).put_deposit(record).pending(),
{
    let a = store.put_deposit(record);
    let b = store.mark_processed(nonce);
    assert(a.processed == store.processed);
    assert(b.deposits == store.deposits);
    assert(a.is_processed(nonce as int) == store.is_processed(nonce as int));
    assert(b.has_deposit(record.details.nonce, record.chain) == store.has_deposit(
        record.details.nonce,
        record.chain,
    ));
}

/// Marking a nonce processed takes the pairs with that nonce out of the
/// pending transfers, on whatever chain, and no other pair.
pub proof fn lemma_mark_removes_nonce(store: EventStoreView, nonce: u64, other: int, chain: Seq<char>)
    ensures
        store.mark_processed(nonce).pending().contains((other, chain)) <==> store.pending().contains(
            (other, chain),
        ) && other != nonce,
{
    let after = store.mark_processed(nonce);
    lemma_pending_members(store);
    lemma_pending_members(after);
    assert(after.deposits == store.deposits);
    assert(after.has_deposit(other, chain) == store.has_deposit(other, chain));
    if store.is_processed(nonce as int) {
    } else {
        assert(after.processed == store.processed.push(nonce));
        if after.is_processed(other) {
            let k = choose|k: int| 0 <= k < after.processed.len() && #[trigger] after.processed[k] == other;
            if k < store.processed.len() {
                assert(store.processed[k] == other);
            }
        }
        if store.is_processed(other) {
            let k = choose|k: int| 0 <= k < store.processed.len() && #[trigger] store.processed[k] == other;
            assert(after.processed[k] == other);
        }
        assert(after.processed[store.processed.len() as int] == nonce);
    }
}

/// Where a nonce is stored under one chain only, a deposit on that chain and
/// the distribution with the same nonce are one transfer: marking the nonce
/// processed takes exactly that pair out of the pending transfers.
pub proof fn lemma_mark_removes_one_pair(
    store: EventStoreView,
    nonce: u64,
    chain: Seq<char>,
    other: int,
    other_chain: Seq<char>,
)
    requires
        forall|c: Seq<char>| store.has_deposit(nonce as int, c) ==> c == chain,
    ensures
        !store.mark_processed(nonce).pending().contains((nonce as int, chain)),
        (other, other_chain) != (nonce as int, chain) ==> (store.mark_processed(
            nonce,
        ).pending().contains((other, other_chain)) <==> store.pending().contains(
            (other, other_chain),
        )),
{
    lemma_mark_removes_nonce(store, nonce, nonce as int, chain);
    lemma_mark_removes_nonce(store, nonce, other, other_chain);
    lemma_pending_members(store);
}

/// Delivering the same deposit log a second time on the same chain succeeds
/// and changes nothing: the store holds exactly one record for the deposit.
pub proof fn lemma_deposit_delivered_twice(
    store: EventStoreView,
    chain: Seq<char>,
    layout: EventLayoutView,
    log: RawLogView,
)
    requires
        store.wf(),
        deposit_delivery(store, chain, layout, log) is Ok,
    ensures
        ({
            let once = deposit_delivery(store, chain, layout, log)->Ok_0;
            let nonce = decoded_deposit(layout, log)->Ok_0.nonce.value() as int;
            &&& once.wf()
            &&& deposit_delivery(once, chain, layout, log) == Ok::<
                EventStoreView,
                crate::events::ListenerError,
            >(once)
            &&& once.deposit_count(nonce, chain) == 1
        }),
{
    let event = decoded_deposit(layout, log)->Ok_0;
    let record = deposit_record_of(event, chain)->Ok_0;
    lemma_deposit_stored_once(store, record);
    lemma_put_deposit_keeps_wf(store, record);
}

/// Delivering the same distribution log a second time succeeds and changes
/// nothing: the ledger holds the nonce exactly once.
pub proof fn lemma_distribution_delivered_twice(
    store: EventStoreView,
    layout: EventLayoutView,
    log: RawLogView,
)
    requires
        store.wf(),
        distribution_delivery(store, layout, log) is Ok,
    ensures
        ({
            let once = distribution_delivery(store, layout, log)->Ok_0;
            let nonce = decoded_distribution(layout, log)->Ok_0.nonce.value() as int;
            &&& once.wf()
            &&& distribution_delivery(once, layout, log) == Ok::<
                EventStoreView,
                crate::events::ListenerError,
            >(once)
            &&& once.is_processed(nonce)
            &&& once.processed_count(nonce) == 1
            &&& once.has_distribution(nonce)
        }),
{
    let event = decoded_distribution(layout, log)->Ok_0;
    let record = distribution_record_of(event)->Ok_0;
    let put = store.put_distribution(record);
    lemma_put_distribution_keeps_wf(store, record);
    lemma_processed_once(put, record.nonce as u64);
    let once = put.mark_processed(record.nonce as u64);
    if !store.has_distribution(record.nonce) {
        assert(put.distributions[store.distributions.len() as int] == record);
    }
    assert(put.has_distribution(record.nonce));
    assert(once.distributions == put.distributions);
    assert(once.has_distribution(record.nonce));
    assert(once.put_distribution(record) == once);
}

/// A release is asked for only when a polled height ends the finality wait:
/// the processor was polling, and the height brought lies at least the
/// configured confirmations above the height at which the wait began.
pub proof fn lemma_release_waits_for_finality(
    state: RelayStateView,
    config: RelayConfig,
    store: EventStoreView,
    event: RelayEvent,
)
    requires
        expects(state, event),
        request(relay_step(state, config, store, event), config) is Submit,
    ensures
        state is Polling,
        event is Height,
        event->Height_0 >= state->Polling_start + config.confirmations,
        relay_step(state, config, store, event) == (RelayStateView::Submitting {
            work: state->Polling_work,
        }),
{
}

/// The height at which a finality wait began is the first height reported
/// for the pair, and polling and sleeping keep it.
pub proof fn lemma_wait_keeps_its_start(
    state: RelayStateView,
    config: RelayConfig,
    store: EventStoreView,
    event: RelayEvent,
)
    ensures
        ({
            let next = relay_step(state, config, store, event);
            &&& next is Polling ==> (state matches RelayStateView::Sampling { .. } && event is Height
                && next->Polling_start == event->Height_0) || (state is Sleeping
                && next->Polling_start == state->Sleeping_start) || next == state
            &&& next is Sleeping ==> (state is Polling && next->Sleeping_start == state->Polling_start)
                || next == state
        }),
{
}

/// The state after a run of events, the store staying as it is.
pub open spec fn relay_run(
    state: RelayStateView,
    config: RelayConfig,
    store: EventStoreView,
    events: Seq<RelayEvent>,
) -> RelayStateView
    decreases events.len(),
{
    if events.len() == 0 {
        state
    } else {
        relay_step(relay_run(state, config, store, events.drop_last()), config, store, events.last())
    }
}

/// The state is inside the finality wait for `work` that began at `start`.
pub open spec fn waiting(state: RelayStateView, work: WorkView, start: u64) -> bool {
    state == (RelayStateView::Polling { work, start }) || state == (RelayStateView::Sleeping {
        work,
        start,
    })
}

proof fn lemma_wait_goes_on(
    work: WorkView,
    start: u64,
    config: RelayConfig,
    store: EventStoreView,
    events: Seq<RelayEvent>,
    k: int,
)
    requires
        0 <= k <= events.len(),
        forall|j: int|
            0 <= j < k ==> !(#[trigger] relay_run(
                RelayStateView::Polling { work, start },
                config,
                store,
                events.take(j),
            ) is Submitting),
    ensures
        ({
            let reached = relay_run(
                RelayStateView::Polling { work, start },
                config,
                store,
                events.take(k),
            );
            waiting(reached, work, start) || (reached == (RelayStateView::Submitting { work })
                && k > 0 && events[k - 1] is Height && events[k - 1]->Height_0 >= start
                + config.confirmations)
        }),
    decreases k,
{
    if k > 0 {
        lemma_wait_goes_on(work, start, config, store, events, k - 1);
        assert(events.take(k).drop_last() =~= events.take(k - 1));
        assert(events.take(k).last() == events[k - 1]);
        let before = relay_run(
            RelayStateView::Polling { work, start },
            config,
            store,
            events.take(k - 1),
        );
        assert(!(before is Submitting));
    }
}

/// The finality wait never ends early. From the moment the first height
/// `start` was reported for a pair, whatever events follow, the first time
/// the processor comes to submit the release is on a reported height that
/// lies at least the configured confirmations above `start`; and the release
/// is that of the pair the wait was for.
pub proof fn lemma_finality_wait_never_ends_early(
    work: WorkView,
    start: u64,
    config: RelayConfig,
    store: EventStoreView,
    events: Seq<RelayEvent>,
)
    requires
        relay_run(RelayStateView::Polling { work, start }, config, store, events) is Submitting,
        forall|j: int|
            0 <= j < events.len() ==> !(#[trigger] relay_run(
                RelayStateView::Polling { work, start },
                config,
                store,
                events.take(j),
            ) is Submitting),
    ensures
        events.len() > 0,
        events.last() is Height,
        events.last()->Height_0 >= start + config.confirmations,
        relay_run(RelayStateView::Polling { work, start }, config, store, events) == (
        RelayStateView::Submitting { work }),
{
    lemma_wait_goes_on(work, start, config, store, events, events.len() as int);
    assert(events.take(events.len() as int) =~= events);
}

/// Every pending pair has a stored deposit to look up.
pub proof fn lemma_pending_has_details(store: EventStoreView, k: int)
    requires
        0 <= k < store.pending().len(),
    ensures
        store.deposit_details(store.pending()[k].0) is Some,
{
    lemma_pending_members(store);
    let pair = store.pending()[k];
    assert(store.pending().contains(pair));
    assert(store.has_deposit(pair.0, pair.1));
    let i = choose|i: int|
        0 <= i < store.deposits.len() && (#[trigger] store.deposits[i]).details.nonce == pair.0
            && store.deposits[i].chain == pair.1;
    lemma_first_with_nonce_found(store.deposits, pair.0, i);
}

proof fn lemma_first_with_nonce_found(deposits: Seq<DepositRecordView>, nonce: int, i: int)
    requires
        0 <= i < deposits.len(),
        deposits[i].details.nonce == nonce,
    ensures
        first_with_nonce(deposits, nonce) is Some,
    decreases deposits.len(),
{
    if deposits.first().details.nonce != nonce {
        assert(deposits.drop_first()[i - 1] == deposits[i]);
        lemma_first_with_nonce_found(deposits.drop_first(), nonce, i - 1);
    }
}

/// A processor that starts anew needs nothing but the store: at its first
/// tick it takes up the first pending transfer, however far an earlier
/// processor had come with it.
pub proof fn lemma_sweep_starts_from_the_store(store: EventStoreView, config: RelayConfig)
    requires
        store.pending().len() > 0,
    ensures
        relay_step(RelayStateView::Idle, config, store, RelayEvent::Tick) is Sampling,
        ({
            let work = relay_step(RelayStateView::Idle, config, store, RelayEvent::Tick)->Sampling_work;
            &&& work.queue == store.pending()
            &&& work.position == 0
            &&& store.deposit_details(store.pending()[0].0) == Some(work.deposit)
        }),
{
    lemma_pending_has_details(store, 0);
    assert(next_work(store, config, store.pending(), 0) is Some);
}

} // verus!
