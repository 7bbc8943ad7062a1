//! The relay processor: the state machine that turns a pending transfer into
//! a release call on the opposite chain, once the source chain has advanced
//! far enough.
//!
//! The processor performs no outside work. Each step takes what the outside
//! brought (a timer tick, a block height, the end of a sleep, a receipt) and
//! answers with the next thing to do.

use vstd::prelude::*;
use crate::database::{EventStore, EventStoreView, get_deposit_details, get_pending_transactions, pending_pairs};
use crate::models::{Address, DepositDetails, DepositDetailsView};

verus! {

/// One of the two peer chains.
#[derive(Clone, Copy, Debug, PartialEq, Eq)]
pub enum Chain {
    Sepolia,
    Holesky,
}

/// What the relay processor is configured with.
#[derive(Clone, Copy, Debug, PartialEq, Eq)]
pub struct RelayConfig {
    /// The bridge contract on Sepolia.
    pub sepolia_bridge: Address,
    /// The bridge contract on Holesky.
    pub holesky_bridge: Address,
    /// By how many blocks the source chain must advance before a release is submitted.
    pub confirmations: u64,
    /// Seconds between two sweeps, and between two polls of the block height.
    pub poll_seconds: u64,
}

/// Where a deposit comes from and where its release goes.
#[derive(Clone, Copy, Debug, PartialEq, Eq)]
pub struct Route {
    pub source: Chain,
    pub destination: Chain,
    /// The bridge contract on the destination chain.
    pub bridge: Address,
}

/// The name under which deposits observed on Sepolia are stored.
pub open spec fn sepolia_name() -> Seq<char> {
    seq!['S', 'e', 'p', 'o', 'l', 'i', 'a']
}

/// The route of a deposit stored under `chain`: from Sepolia to Holesky for
/// the name `Sepolia`, from Holesky to Sepolia for any other name.
pub open spec fn route_of(chain: Seq<char>, config: RelayConfig) -> Route {
    if chain == sepolia_name() {
        Route { source: Chain::Sepolia, destination: Chain::Holesky, bridge: config.holesky_bridge }
    } else {
        Route { source: Chain::Holesky, destination: Chain::Sepolia, bridge: config.sepolia_bridge }
    }
}

/// The source chain's height `current` lies at least `confirmations` blocks
/// above the height `start` at which the wait began.
pub open spec fn finality_reached(start: u64, confirmations: u64, current: u64) -> bool {
    current >= start + confirmations
}

/// Decides whether a finality wait that began at height `start` is over at height `current`.
pub fn wait_for_finality(start: u64, confirmations: u64, current: u64) -> (done: bool)
    ensures
        done == finality_reached(start, confirmations, current),
{
    match start.checked_add(confirmations) {
        Some(target) => current >= target,
        None => false,
    }
}

impl RelayConfig {
    /// The configuration for two bridges, with two confirmations and fifteen seconds between polls.
    pub fn new(sepolia_bridge: Address, holesky_bridge: Address) -> (config: RelayConfig)
        ensures
            config == (RelayConfig { sepolia_bridge, holesky_bridge, confirmations: 2, poll_seconds: 15 }),
    {
        RelayConfig { sepolia_bridge, holesky_bridge, confirmations: 2, poll_seconds: 15 }
    }

    /// Determines source chain, destination chain and destination bridge of a deposit stored under `chain`.
    pub fn route(&self, chain: &String) -> (route: Route)
        ensures
            route == route_of(chain@, *self),
    {
        proof {
            reveal_strlit("Sepolia");
        }
        let sepolia = String::from_str("Sepolia");
        assert(sepolia@ =~= sepolia_name());
        if *chain == sepolia {
            Route { source: Chain::Sepolia, destination: Chain::Holesky, bridge: self.holesky_bridge }
        } else {
            Route { source: Chain::Holesky, destination: Chain::Sepolia, bridge: self.sepolia_bridge }
        }
    }
}

/// The pending pair that a sweep is working on.
#[derive(Clone, Debug, PartialEq, Eq)]
pub struct Work {
    /// The pending pairs that the sweep found when it began.
    pub queue: Vec<(u64, String)>,
    /// The place in `queue` of the pair in work.
    pub position: usize,
    /// The stored deposit of the pair in work.
    pub deposit: DepositDetails,
    /// Where the deposit comes from and where its release goes.
    pub route: Route,
}

/// Mathematical content of a [`Work`].
pub struct WorkView {
    pub queue: Seq<(int, Seq<char>)>,
    pub position: int,
    pub deposit: DepositDetailsView,
    pub route: Route,
}

impl View for Work {
    type V = WorkView;

    open spec fn view(&self) -> WorkView {
        WorkView {
            queue: pending_pairs(self.queue@),
            position: self.position as int,
            deposit: self.deposit@,
            route: self.route,
        }
    }
}

/// Where the relay processor stands.
#[derive(Clone, Debug, PartialEq, Eq)]
pub enum RelayState {
    /// Between two sweeps: waiting for the next tick.
    Idle,
    /// Asked the source chain for the height at which the finality wait begins.
    Sampling { work: Work },
    /// Asked the source chain for its current height.
    Polling { work: Work, start: u64 },
    /// Sleeping before the next poll.
    Sleeping { work: Work, start: u64 },
    /// Submitted the release and waiting for its receipt.
    Submitting { work: Work },
}

/// Mathematical content of a [`RelayState`].
pub enum RelayStateView {
    Idle,
    Sampling { work: WorkView },
    Polling { work: WorkView, start: u64 },
    Sleeping { work: WorkView, start: u64 },
    Submitting { work: WorkView },
}

impl View for RelayState {
    type V = RelayStateView;

    open spec fn view(&self) -> RelayStateView {
        match self {
            RelayState::Idle => RelayStateView::Idle,
            RelayState::Sampling { work } => RelayStateView::Sampling { work: work@ },
            RelayState::Polling { work, start } => RelayStateView::Polling { work: work@, start: *start },
            RelayState::Sleeping { work, start } => RelayStateView::Sleeping {
                work: work@,
                start: *start,
            },
            RelayState::Submitting { work } => RelayStateView::Submitting { work: work@ },
        }
    }
}

/// What the outside brings to the relay processor.
#[derive(Clone, Copy, Debug, PartialEq, Eq)]
pub enum RelayEvent {
    /// The sweep timer fired.
    Tick,
    /// The source chain reported its current block height.
    Height(u64),
    /// The sleep between two polls is over.
    Slept,
    /// The submitted release was answered: `true` with a receipt, `false` without one.
    Receipt(bool),
}

/// A call of `distribute` on the destination bridge.
#[derive(Clone, Debug, PartialEq, Eq)]
pub struct DistributeCall {
    pub chain: Chain,
    pub bridge: Address,
    pub token: String,
    pub to: String,
    pub amount: i64,
    pub nonce: i64,
}

/// Mathematical content of a [`DistributeCall`].
pub struct DistributeCallView {
    pub chain: Chain,
    pub bridge: Address,
    pub token: Seq<char>,
    pub to: Seq<char>,
    pub amount: int,
    pub nonce: int,
}

impl View for DistributeCall {
    type V = DistributeCallView;

    open spec fn view(&self) -> DistributeCallView {
        DistributeCallView {
            chain: self.chain,
            bridge: self.bridge,
            token: self.token@,
            to: self.to@,
            amount: self.amount as int,
            nonce: self.nonce as int,
        }
    }
}

/// What the relay processor asks the outside to do next.
#[derive(Clone, Debug, PartialEq, Eq)]
pub enum RelayAction {
    /// Wait for the next tick of the sweep timer, then bring `Tick`.
    AwaitTick,
    /// Ask this chain for its current block height, then bring `Height`.
    QueryHeight(Chain),
    /// Sleep for this many seconds, then bring `Slept`.
    Sleep(u64),
    /// Submit this call and wait for its receipt, then bring `Receipt`.
    Submit(DistributeCall),
    /// The event was not the one the processor was waiting for; nothing changed.
    Unexpected,
}

/// Mathematical content of a [`RelayAction`].
pub enum RelayActionView {
    AwaitTick,
    QueryHeight(Chain),
    Sleep(u64),
    Submit(DistributeCallView),
    Unexpected,
}

impl View for RelayAction {
    type V = RelayActionView;

    open spec fn view(&self) -> RelayActionView {
        match self {
            RelayAction::AwaitTick => RelayActionView::AwaitTick,
            RelayAction::QueryHeight(chain) => RelayActionView::QueryHeight(*chain),
            RelayAction::Sleep(seconds) => RelayActionView::Sleep(*seconds),
            RelayAction::Submit(call) => RelayActionView::Submit(call@),
            RelayAction::Unexpected => RelayActionView::Unexpected,
        }
    }
}

/// The first pair of `queue` at or after `from` whose nonce has a stored
/// deposit, with that deposit and its route.
pub open spec fn next_work(
    store: EventStoreView,
    config: RelayConfig,
    queue: Seq<(int, Seq<char>)>,
    from: int,
) -> Option<WorkView>
    decreases queue.len() - from,
{
    if from < 0 || from >= queue.len() {
        None
    } else {
        match store.deposit_details(queue[from].0) {
            Some(deposit) => Some(
                WorkView { queue, position: from, deposit, route: route_of(queue[from].1, config) },
            ),
            None => next_work(store, config, queue, from + 1),
        }
    }
}

/// The state in which a sweep goes on: sampling for the next pair, idle when none is left.
pub open spec fn resume(work: Option<WorkView>) -> RelayStateView {
    match work {
        Some(work) => RelayStateView::Sampling { work },
        None => RelayStateView::Idle,
    }
}

/// The event is the one that the state is waiting for.
pub open spec fn expects(state: RelayStateView, event: RelayEvent) -> bool {
    match state {
        RelayStateView::Idle => event is Tick,
        RelayStateView::Sampling { .. } => event is Height,
        RelayStateView::Polling { .. } => event is Height,
        RelayStateView::Sleeping { .. } => event is Slept,
        RelayStateView::Submitting { .. } => event is Receipt,
    }
}

/// The state after `event`. An event that the state is not waiting for changes nothing.
///
/// A tick starts a sweep over the pairs that are pending in `store`. The
/// first height reported for a pair is where its finality wait begins; every
/// later height either ends the wait, when the chain has advanced by the
/// configured confirmations, or is followed by a sleep and another poll. A
/// receipt, with or without a mined transaction, moves the sweep to its next pair.
pub open spec fn relay_step(
    state: RelayStateView,
    config: RelayConfig,
    store: EventStoreView,
    event: RelayEvent,
) -> RelayStateView {
    match state {
        RelayStateView::Idle => match event {
            RelayEvent::Tick => resume(next_work(store, config, store.pending(), 0)),
            _ => state,
        },
        RelayStateView::Sampling { work } => match event {
            RelayEvent::Height(height) => RelayStateView::Polling { work, start: height },
            _ => state,
        },
        RelayStateView::Polling { work, start } => match event {
            RelayEvent::Height(height) => if finality_reached(start, config.confirmations, height) {
                RelayStateView::Submitting { work }
            } else {
                RelayStateView::Sleeping { work, start }
            },
            _ => state,
        },
        RelayStateView::Sleeping { work, start } => match event {
            RelayEvent::Slept => RelayStateView::Polling { work, start },
            _ => state,
        },
        RelayStateView::Submitting { work } => match event {
            RelayEvent::Receipt(_) => resume(next_work(store, config, work.queue, work.position + 1)),
            _ => state,
        },
    }
}

/// The release call for the pair in work: token, recipient, amount and nonce
/// of the stored deposit, sent to the bridge on the destination chain.
pub open spec fn call_of(work: WorkView) -> DistributeCallView {
    DistributeCallView {
        chain: work.route.destination,
        bridge: work.route.bridge,
        token: work.deposit.token,
        to: work.deposit.to,
        amount: work.deposit.amount,
        nonce: work.deposit.nonce,
    }
}

/// What a state asks the outside to do.
pub open spec fn request(state: RelayStateView, config: RelayConfig) -> RelayActionView {
    match state {
        RelayStateView::Idle => RelayActionView::AwaitTick,
        RelayStateView::Sampling { work } => RelayActionView::QueryHeight(work.route.source),
        RelayStateView::Polling { work, .. } => RelayActionView::QueryHeight(work.route.source),
        RelayStateView::Sleeping { .. } => RelayActionView::Sleep(config.poll_seconds),
        RelayStateView::Submitting { work } => RelayActionView::Submit(call_of(work)),
    }
}

/// The relay processor: its configuration and where it stands.
#[derive(Clone, Debug, PartialEq, Eq)]
pub struct RelayProcessor {
    pub config: RelayConfig,
    pub state: RelayState,
}

/// The content of an optional work item.
pub open spec fn work_view(work: Option<Work>) -> Option<WorkView> {
    match work {
        Some(work) => Some(work@),
        None => None,
    }
}

/// Finds the first pair of `queue` at or after `from` that has a stored deposit.
fn find_work(store: &EventStore, config: &RelayConfig, queue: Vec<(u64, String)>, from: usize) -> (work:
    Option<Work>)
    ensures
        work_view(work) == next_work(store@, *config, pending_pairs(queue@), from as int),
{
    let mut i: usize = from;
    while i < queue.len()
        invariant
            from <= i,
            next_work(store@, *config, pending_pairs(queue@), from as int) == next_work(
                store@,
                *config,
                pending_pairs(queue@),
                i as int,
            ),
        decreases queue.len() - i,
    {
        assert(pending_pairs(queue@)[i as int] == (queue@[i as int].0 as int, queue@[i as int].1@));
        match get_deposit_details(store, queue[i].0) {
            Some(deposit) => {
                let route = config.route(&queue[i].1);
                return Some(Work { queue, position: i, deposit, route });
            },
            None => {
                i = i + 1;
            },
        }
    }
    None
}

fn resume_with(work: Option<Work>) -> (state: RelayState)
    ensures
        state@ == resume(work_view(work)),
{
    match work {
        Some(work) => RelayState::Sampling { work },
        None => RelayState::Idle,
    }
}

fn request_of(state: &RelayState, config: &RelayConfig) -> (action: RelayAction)
    ensures
        action@ == request(state@, *config),
{
    match state {
        RelayState::Idle => RelayAction::AwaitTick,
        RelayState::Sampling { work } => RelayAction::QueryHeight(work.route.source),
        RelayState::Polling { work, .. } => RelayAction::QueryHeight(work.route.source),
        RelayState::Sleeping { .. } => RelayAction::Sleep(config.poll_seconds),
        RelayState::Submitting { work } => RelayAction::Submit(
            DistributeCall {
                chain: work.route.destination,
                bridge: work.route.bridge,
                token: work.deposit.token.clone(),
                to: work.deposit.to.clone(),
                amount: work.deposit.amount,
                nonce: work.deposit.nonce,
            },
        ),
    }
}

impl RelayProcessor {
    /// A processor between two sweeps.
    pub fn new(config: RelayConfig) -> (processor: RelayProcessor)
        ensures
            processor.config == config,
            processor.state@ == RelayStateView::Idle,
    {
        RelayProcessor { config, state: RelayState::Idle }
    }
}

/// Advances the relay processor by one event and returns what to do next.
///
/// The new state is [`relay_step`] of the old one. The answer is the request
/// of the new state, or `Unexpected` where the event was not the one awaited.
/// A release is therefore asked for only when a polled height ends the
/// finality wait, and asked for once.
pub fn process_pending_transactions(
    processor: &mut RelayProcessor,
    store: &EventStore,
    event: RelayEvent,
) -> (action: RelayAction)
    ensures
        final(processor).config == old(processor).config,
        final(processor).state@ == relay_step(
            old(processor).state@,
            old(processor).config,
            store@,
            event,
        ),
        action@ == if expects(old(processor).state@, event) {
            request(final(processor).state@, old(processor).config)
        } else {
            RelayActionView::Unexpected
        },
{
    let mut state = RelayState::Idle;
    std::mem::swap(&mut state, &mut processor.state);
    let config = processor.config;
    let (next, expected) = match state {
        RelayState::Idle => match event {
            RelayEvent::Tick => {
                let queue = get_pending_transactions(store);
                (resume_with(find_work(store, &config, queue, 0)), true)
            },
            _ => (RelayState::Idle, false),
        },
        RelayState::Sampling { work } => match event {
            RelayEvent::Height(height) => (RelayState::Polling { work, start: height }, true),
            _ => (RelayState::Sampling { work }, false),
        },
        RelayState::Polling { work, start } => match event {
            RelayEvent::Height(height) => if wait_for_finality(start, config.confirmations, height) {
                (RelayState::Submitting { work }, true)
            } else {
                (RelayState::Sleeping { work, start }, true)
            },
            _ => (RelayState::Polling { work, start }, false),
        },
        RelayState::Sleeping { work, start } => match event {
            RelayEvent::Slept => (RelayState::Polling { work, start }, true),
            _ => (RelayState::Sleeping { work, start }, false),
        },
        RelayState::Submitting { work } => match event {
            RelayEvent::Receipt(_) => {
                if work.position < usize::MAX {
                    let from = work.position + 1;
                    (resume_with(find_work(store, &config, work.queue, from)), true)
                } else {
                    (RelayState::Idle, true)
                }
            },
            _ => (RelayState::Submitting { work }, false),
        },
    };
    let action = if expected {
        request_of(&next, &config)
    } else {
        RelayAction::Unexpected
    };
    processor.state = next;
    action
}

} // verus!
