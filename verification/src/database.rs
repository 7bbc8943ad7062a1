//! The event store: deposit records, distribution records and the ledger of
//! processed nonces, with the pending transfers derived from them.
//!
//! Every write is an insert-if-absent. A deposit is keyed by its nonce and
//! the chain it was observed on, a distribution and a ledger entry by the
//! nonce alone. Pending transfers are never written: they are the deposits
//! whose nonce the ledger does not hold.

use vstd::prelude::*;
use crate::models::{DepositDetails, DepositDetailsView, DepositEvent, DistributionEvent, address_text};

verus! {

/// Why an event could not be turned into a record.
#[derive(Clone, Copy, Debug, PartialEq, Eq)]
pub enum StoreError {
    /// The amount does not fit the store's signed 64-bit column.
    AmountOutOfRange,
    /// The nonce does not fit the store's signed 64-bit column.
    NonceOutOfRange,
}

/// A stored deposit: the deposit's fields and the chain it was observed on.
#[derive(Clone, Debug, PartialEq, Eq)]
pub struct DepositRecord {
    pub details: DepositDetails,
    pub chain: String,
}

/// Mathematical content of a [`DepositRecord`].
pub struct DepositRecordView {
    pub details: DepositDetailsView,
    pub chain: Seq<char>,
}

impl View for DepositRecord {
    type V = DepositRecordView;

    open spec fn view(&self) -> DepositRecordView {
        DepositRecordView { details: self.details@, chain: self.chain@ }
    }
}

/// A stored distribution.
#[derive(Clone, Debug, PartialEq, Eq)]
pub struct DistributionRecord {
    pub token: String,
    pub to: String,
    pub amount: i64,
    pub nonce: i64,
}

/// Mathematical content of a [`DistributionRecord`].
pub struct DistributionRecordView {
    pub token: Seq<char>,
    pub to: Seq<char>,
    pub amount: int,
    pub nonce: int,
}

impl View for DistributionRecord {
    type V = DistributionRecordView;

    open spec fn view(&self) -> DistributionRecordView {
        DistributionRecordView {
            token: self.token@,
            to: self.to@,
            amount: self.amount as int,
            nonce: self.nonce as int,
        }
    }
}

/// Mathematical content of an [`EventStore`]: its rows in the order they were first stored.
pub struct EventStoreView {
    pub deposits: Seq<DepositRecordView>,
    pub distributions: Seq<DistributionRecordView>,
    pub processed: Seq<u64>,
}

impl EventStoreView {
    /// The store that holds nothing.
    pub open spec fn empty() -> EventStoreView {
        EventStoreView { deposits: Seq::empty(), distributions: Seq::empty(), processed: Seq::empty() }
    }

    /// A deposit with this nonce is stored for this chain.
    pub open spec fn has_deposit(self, nonce: int, chain: Seq<char>) -> bool {
        exists|i: int|
            0 <= i < self.deposits.len() && (#[trigger] self.deposits[i]).details.nonce == nonce
                && self.deposits[i].chain == chain
    }

    /// How many deposit records are stored for this nonce and chain.
    pub open spec fn deposit_count(self, nonce: int, chain: Seq<char>) -> nat {
        self.deposits.filter(keyed(nonce, chain)).len()
    }

    /// A distribution with this nonce is stored.
    pub open spec fn has_distribution(self, nonce: int) -> bool {
        exists|i: int|
            0 <= i < self.distributions.len() && (#[trigger] self.distributions[i]).nonce == nonce
    }

    /// The ledger holds this nonce.
    pub open spec fn is_processed(self, nonce: int) -> bool {
        exists|k: int| 0 <= k < self.processed.len() && #[trigger] self.processed[k] == nonce
    }

    /// How many ledger entries hold this nonce.
    pub open spec fn processed_count(self, nonce: int) -> nat {
        self.processed.filter(equal_to(nonce)).len()
    }

    /// The store after an insert-if-absent of a deposit record.
    pub open spec fn put_deposit(self, record: DepositRecordView) -> EventStoreView {
        if self.has_deposit(record.details.nonce, record.chain) {
            self
        } else {
            EventStoreView { deposits: self.deposits.push(record), ..self }
        }
    }

    /// The store after an insert-if-absent of a distribution record.
    pub open spec fn put_distribution(self, record: DistributionRecordView) -> EventStoreView {
        if self.has_distribution(record.nonce) {
            self
        } else {
            EventStoreView { distributions: self.distributions.push(record), ..self }
        }
    }

    /// The store after an insert-if-absent of a nonce into the ledger.
    pub open spec fn mark_processed(self, nonce: u64) -> EventStoreView {
        if self.is_processed(nonce as int) {
            self
        } else {
            EventStoreView { processed: self.processed.push(nonce), ..self }
        }
    }

    /// Tells the deposits whose nonce the ledger does not hold.
    pub open spec fn unprocessed(self) -> spec_fn(DepositRecordView) -> bool {
        |r: DepositRecordView| !self.is_processed(r.details.nonce)
    }

    /// The pending transfers: nonce and chain of every deposit whose nonce the
    /// ledger does not hold, in the order the deposits were stored.
    pub open spec fn pending(self) -> Seq<(int, Seq<char>)> {
        self.deposits.filter(self.unprocessed()).map_values(pending_key())
    }

    /// The first stored deposit with this nonce, on whatever chain.
    pub open spec fn deposit_details(self, nonce: int) -> Option<DepositDetailsView> {
        first_with_nonce(self.deposits, nonce)
    }

    /// No key occurs twice, and no stored nonce or amount is negative.
    pub open spec fn wf(self) -> bool {
        &&& forall|i: int, j: int|
            0 <= i < j < self.deposits.len() ==> !((#[trigger] self.deposits[i]).details.nonce == (
            #[trigger] self.deposits[j]).details.nonce && self.deposits[i].chain
                == self.deposits[j].chain)
        &&& forall|i: int, j: int|
            0 <= i < j < self.distributions.len() ==> (#[trigger] self.distributions[i]).nonce != (
            #[trigger] self.distributions[j]).nonce
        &&& forall|i: int, j: int|
            0 <= i < j < self.processed.len() ==> #[trigger] self.processed[i]
                != #[trigger] self.processed[j]
        &&& forall|i: int|
            0 <= i < self.deposits.len() ==> 0 <= (#[trigger] self.deposits[i]).details.nonce && 0
                <= self.deposits[i].details.amount
        &&& forall|i: int|
            0 <= i < self.distributions.len() ==> 0 <= (#[trigger] self.distributions[i]).nonce && 0
                <= self.distributions[i].amount
    }
}

/// Tells the deposit records with this nonce and chain.
pub open spec fn keyed(nonce: int, chain: Seq<char>) -> spec_fn(DepositRecordView) -> bool {
    |r: DepositRecordView| r.details.nonce == nonce && r.chain == chain
}

/// Tells the ledger entries that hold this nonce.
pub open spec fn equal_to(nonce: int) -> spec_fn(u64) -> bool {
    |n: u64| n == nonce
}

/// The key under which a deposit is pending: its nonce and its chain.
pub open spec fn deposit_key(record: DepositRecordView) -> (int, Seq<char>) {
    (record.details.nonce, record.chain)
}

/// [`deposit_key`] as a function value.
pub open spec fn pending_key() -> spec_fn(DepositRecordView) -> (int, Seq<char>) {
    |r: DepositRecordView| deposit_key(r)
}

/// The details of the first record in `deposits` that carries `nonce`.
pub open spec fn first_with_nonce(deposits: Seq<DepositRecordView>, nonce: int) -> Option<
    DepositDetailsView,
>
    decreases deposits.len(),
{
    if deposits.len() == 0 {
        None
    } else if deposits.first().details.nonce == nonce {
        Some(deposits.first().details)
    } else {
        first_with_nonce(deposits.drop_first(), nonce)
    }
}

/// The record that a deposit event becomes on `chain`: addresses in text
/// form, amount and nonce as signed 64-bit integers. An amount that does not
/// fit is reported before a nonce that does not.
pub open spec fn deposit_record_of(event: DepositEvent, chain: Seq<char>) -> Result<
    DepositRecordView,
    StoreError,
> {
    if event.amount.value() > i64::MAX {
        Err(StoreError::AmountOutOfRange)
    } else if event.nonce.value() > i64::MAX {
        Err(StoreError::NonceOutOfRange)
    } else {
        Ok(
            DepositRecordView {
                details: DepositDetailsView {
                    token: address_text(event.token.bytes@),
                    from: address_text(event.from.bytes@),
                    to: address_text(event.to.bytes@),
                    amount: event.amount.value() as int,
                    nonce: event.nonce.value() as int,
                },
                chain,
            },
        )
    }
}

/// The record that a distribution event becomes.
pub open spec fn distribution_record_of(event: DistributionEvent) -> Result<
    DistributionRecordView,
    StoreError,
> {
    if event.amount.value() > i64::MAX {
        Err(StoreError::AmountOutOfRange)
    } else if event.nonce.value() > i64::MAX {
        Err(StoreError::NonceOutOfRange)
    } else {
        Ok(
            DistributionRecordView {
                token: address_text(event.token.bytes@),
                to: address_text(event.to.bytes@),
                amount: event.amount.value() as int,
                nonce: event.nonce.value() as int,
            },
        )
    }
}

/// Turns a deposit event observed on `chain` into the record that the store keeps.
pub fn deposit_record(event: &DepositEvent, chain: &str) -> (record: Result<
    DepositRecord,
    StoreError,
>)
    ensures
        match deposit_record_of(*event, chain@) {
            Ok(expected) => record is Ok && record->Ok_0@ == expected,
            Err(e) => record == Err::<DepositRecord, StoreError>(e),
        },
{
    let amount = match event.amount.to_i64() {
        Some(a) => a,
        None => { return Err(StoreError::AmountOutOfRange); },
    };
    let nonce = match event.nonce.to_i64() {
        Some(n) => n,
        None => { return Err(StoreError::NonceOutOfRange); },
    };
    Ok(
        DepositRecord {
            details: DepositDetails {
                token: event.token.to_hex(),
                from: event.from.to_hex(),
                to: event.to.to_hex(),
                amount,
                nonce,
            },
            chain: String::from_str(chain),
        },
    )
}

/// Turns a distribution event into the record that the store keeps.
pub fn distribution_record(event: &DistributionEvent) -> (record: Result<
    DistributionRecord,
    StoreError,
>)
    ensures
        match distribution_record_of(*event) {
            Ok(expected) => record is Ok && record->Ok_0@ == expected,
            Err(e) => record == Err::<DistributionRecord, StoreError>(e),
        },
{
    let amount = match event.amount.to_i64() {
        Some(a) => a,
        None => { return Err(StoreError::AmountOutOfRange); },
    };
    let nonce = match event.nonce.to_i64() {
        Some(n) => n,
        None => { return Err(StoreError::NonceOutOfRange); },
    };
    Ok(
        DistributionRecord {
            token: event.token.to_hex(),
            to: event.to.to_hex(),
            amount,
            nonce,
        },
    )
}


/// The idempotent event store.
pub struct EventStore {
    deposits: Vec<DepositRecord>,
    distributions: Vec<DistributionRecord>,
    processed: Vec<u64>,
}

impl View for EventStore {
    type V = EventStoreView;

    closed spec fn view(&self) -> EventStoreView {
        EventStoreView {
            deposits: deposit_views(self.deposits@),
            distributions: distribution_views(self.distributions@),
            processed: self.processed@,
        }
    }
}

/// The contents of deposit rows.
pub open spec fn deposit_views(rows: Seq<DepositRecord>) -> Seq<DepositRecordView> {
    rows.map_values(|r: DepositRecord| r@)
}

/// The contents of distribution rows.
pub open spec fn distribution_views(rows: Seq<DistributionRecord>) -> Seq<DistributionRecordView> {
    rows.map_values(|r: DistributionRecord| r@)
}

/// The pairs of a pending list, each chain name by its characters.
pub open spec fn pending_pairs(list: Seq<(u64, String)>) -> Seq<(int, Seq<char>)> {
    list.map_values(|p: (u64, String)| (p.0 as int, p.1@))
}

impl EventStore {
    #[verifier::type_invariant]
    spec fn well_formed(&self) -> bool {
        self@.wf()
    }

    /// A store that holds nothing.
    pub fn new() -> (store: EventStore)
        ensures
            store@ == EventStoreView::empty(),
    {
        let store = EventStore { deposits: Vec::new(), distributions: Vec::new(), processed: Vec::new() };
        assert(store@.deposits =~= Seq::empty());
        assert(store@.distributions =~= Seq::empty());
        store
    }

    /// The stored deposit records, oldest first.
    pub fn deposits(&self) -> (rows: &Vec<DepositRecord>)
        ensures
            deposit_views(rows@) == self@.deposits,
            self@.wf(),
    {
        proof {
            use_type_invariant(self);
        }
        &self.deposits
    }

    /// The stored distribution records, oldest first.
    pub fn distributions(&self) -> (rows: &Vec<DistributionRecord>)
        ensures
            distribution_views(rows@) == self@.distributions,
            self@.wf(),
    {
        proof {
            use_type_invariant(self);
        }
        &self.distributions
    }

    /// The ledger of processed nonces, oldest first.
    pub fn processed(&self) -> (nonces: &Vec<u64>)
        ensures
            nonces@ == self@.processed,
            self@.wf(),
    {
        proof {
            use_type_invariant(self);
        }
        &self.processed
    }

    /// Moves the rows out and leaves an empty store behind.
    fn take(&mut self) -> (rows: EventStore)
        ensures
            rows@ == old(self)@,
            rows@.wf(),
            final(self)@ == EventStoreView::empty(),
    {
        proof {
            use_type_invariant(&*self);
        }
        let mut rows = EventStore::new();
        std::mem::swap(&mut rows, self);
        rows
    }

    fn holds_deposit(&self, nonce: i64, chain: &String) -> (found: bool)
        ensures
            found == self@.has_deposit(nonce as int, chain@),
    {
        let mut i: usize = 0;
        while i < self.deposits.len()
            invariant
                i <= self.deposits.len(),
                forall|j: int|
                    0 <= j < i ==> !((#[trigger] self@.deposits[j]).details.nonce == nonce
                        && self@.deposits[j].chain == chain@),
            decreases self.deposits.len() - i,
        {
            let row = &self.deposits[i];
            if row.details.nonce == nonce && row.chain == *chain {
                assert(self@.deposits[i as int] == row@);
                return true;
            }
            assert(self@.deposits[i as int] == row@);
            i = i + 1;
        }
        false
    }

    fn holds_distribution(&self, nonce: i64) -> (found: bool)
        ensures
            found == self@.has_distribution(nonce as int),
    {
        let mut i: usize = 0;
        while i < self.distributions.len()
            invariant
                i <= self.distributions.len(),
                forall|j: int| 0 <= j < i ==> (#[trigger] self@.distributions[j]).nonce != nonce,
            decreases self.distributions.len() - i,
        {
            let row = &self.distributions[i];
            assert(self@.distributions[i as int] == row@);
            if row.nonce == nonce {
                return true;
            }
            i = i + 1;
        }
        false
    }

    fn holds_processed(&self, nonce: u64) -> (found: bool)
        ensures
            found == self@.is_processed(nonce as int),
    {
        let mut i: usize = 0;
        while i < self.processed.len()
            invariant
                i <= self.processed.len(),
                forall|j: int| 0 <= j < i ==> #[trigger] self@.processed[j] != nonce,
            decreases self.processed.len() - i,
        {
            if self.processed[i] == nonce {
                assert(self@.processed[i as int] == nonce);
                return true;
            }
            i = i + 1;
        }
        false
    }
}

/// Stores a deposit record unless one with its nonce and chain is stored
/// already, and tells whether it was new. A record with a negative amount or
/// nonce is refused, the amount first.
pub fn store_deposit_record(store: &mut EventStore, record: DepositRecord) -> (stored: Result<
    bool,
    StoreError,
>)
    ensures
        final(store)@.wf(),
        record@.details.amount < 0 ==> stored == Err::<bool, StoreError>(
            StoreError::AmountOutOfRange,
        ) && final(store)@ == old(store)@,
        record@.details.amount >= 0 && record@.details.nonce < 0 ==> stored == Err::<
            bool,
            StoreError,
        >(StoreError::NonceOutOfRange) && final(store)@ == old(store)@,
        record@.details.amount >= 0 && record@.details.nonce >= 0 ==> stored == Ok::<
            bool,
            StoreError,
        >(!old(store)@.has_deposit(record@.details.nonce, record@.chain)) && final(store)@ == old(
            store,
        )@.put_deposit(record@),
{
    proof {
        use_type_invariant(&*store);
    }
    if record.details.amount < 0 {
        return Err(StoreError::AmountOutOfRange);
    }
    if record.details.nonce < 0 {
        return Err(StoreError::NonceOutOfRange);
    }
    if store.holds_deposit(record.details.nonce, &record.chain) {
        return Ok(false);
    }
    let ghost before = store@;
    let ghost added = record@;
    let EventStore { mut deposits, distributions, processed } = store.take();
    deposits.push(record);
    proof {
        let rows = deposit_views(deposits@);
        assert(rows =~= before.deposits.push(added));
        assert forall|i: int, j: int| 0 <= i < j < rows.len() implies !((#[trigger] rows[i]).details.nonce
            == (#[trigger] rows[j]).details.nonce && rows[i].chain == rows[j].chain) by {
            if j < before.deposits.len() {
                assert(rows[i] == before.deposits[i] && rows[j] == before.deposits[j]);
            } else {
                assert(rows[i] == before.deposits[i]);
            }
        }
        assert(distribution_views(distributions@) == before.distributions);
        assert(processed@ == before.processed);
        let grown = EventStoreView {
            deposits: rows,
            distributions: before.distributions,
            processed: before.processed,
        };
        assert(grown.wf());
    }
    *store = EventStore { deposits, distributions, processed };
    Ok(true)
}

/// Stores a distribution record unless one with its nonce is stored already,
/// and tells whether it was new. A record with a negative amount or nonce is
/// refused, the amount first.
pub fn store_distribution_record(store: &mut EventStore, record: DistributionRecord) -> (stored:
    Result<bool, StoreError>)
    ensures
        final(store)@.wf(),
        record@.amount < 0 ==> stored == Err::<bool, StoreError>(StoreError::AmountOutOfRange)
            && final(store)@ == old(store)@,
        record@.amount >= 0 && record@.nonce < 0 ==> stored == Err::<bool, StoreError>(
            StoreError::NonceOutOfRange,
        ) && final(store)@ == old(store)@,
        record@.amount >= 0 && record@.nonce >= 0 ==> stored == Ok::<bool, StoreError>(
            !old(store)@.has_distribution(record@.nonce),
        ) && final(store)@ == old(store)@.put_distribution(record@),
{
    proof {
        use_type_invariant(&*store);
    }
    if record.amount < 0 {
        return Err(StoreError::AmountOutOfRange);
    }
    if record.nonce < 0 {
        return Err(StoreError::NonceOutOfRange);
    }
    if store.holds_distribution(record.nonce) {
        return Ok(false);
    }
    let ghost before = store@;
    let ghost added = record@;
    let EventStore { deposits, mut distributions, processed } = store.take();
    distributions.push(record);
    proof {
        let rows = distribution_views(distributions@);
        assert(rows =~= before.distributions.push(added));
        assert forall|i: int, j: int| 0 <= i < j < rows.len() implies (#[trigger] rows[i]).nonce != (
        #[trigger] rows[j]).nonce by {
            if j < before.distributions.len() {
                assert(rows[i] == before.distributions[i] && rows[j] == before.distributions[j]);
            } else {
                assert(rows[i] == before.distributions[i]);
            }
        }
        assert(deposit_views(deposits@) == before.deposits);
        assert(processed@ == before.processed);
        let grown = EventStoreView {
            deposits: before.deposits,
            distributions: rows,
            processed: before.processed,
        };
        assert(grown.wf());
    }
    *store = EventStore { deposits, distributions, processed };
    Ok(true)
}


/// Records a deposit observed on `chain`, unless that chain already has a
/// deposit with the same nonce, and tells whether it was new.
pub fn store_deposit_event(store: &mut EventStore, event: &DepositEvent, chain: &str) -> (stored:
    Result<bool, StoreError>)
    ensures
        final(store)@.wf(),
        match deposit_record_of(*event, chain@) {
            Ok(record) => stored == Ok::<bool, StoreError>(
                !old(store)@.has_deposit(record.details.nonce, record.chain),
            ) && final(store)@ == old(store)@.put_deposit(record),
            Err(e) => stored == Err::<bool, StoreError>(e) && final(store)@ == old(store)@,
        },
{
    match deposit_record(event, chain) {
        Ok(record) => store_deposit_record(store, record),
        Err(e) => {
            proof {
                use_type_invariant(&*store);
            }
            Err(e)
        },
    }
}

/// Records a distribution, unless one with the same nonce is recorded
/// already, and tells whether it was new.
pub fn store_distribution_event(store: &mut EventStore, event: &DistributionEvent) -> (stored:
    Result<bool, StoreError>)
    ensures
        final(store)@.wf(),
        match distribution_record_of(*event) {
            Ok(record) => stored == Ok::<bool, StoreError>(
                !old(store)@.has_distribution(record.nonce),
            ) && final(store)@ == old(store)@.put_distribution(record),
            Err(e) => stored == Err::<bool, StoreError>(e) && final(store)@ == old(store)@,
        },
{
    match distribution_record(event) {
        Ok(record) => store_distribution_record(store, record),
        Err(e) => {
            proof {
                use_type_invariant(&*store);
            }
            Err(e)
        },
    }
}

/// Tells whether a transfer with this nonce would be pending: whether the
/// ledger does not hold the nonce. Nothing is written.
pub fn insert_pending_transaction(store: &EventStore, nonce: u64) -> (pending: bool)
    ensures
        pending == !store@.is_processed(nonce as int),
{
    !store.holds_processed(nonce)
}

/// Enters a nonce into the ledger of processed nonces, unless it is there
/// already, and tells whether it was new.
pub fn mark_transaction_processed(store: &mut EventStore, nonce: u64) -> (marked: bool)
    ensures
        final(store)@.wf(),
        final(store)@ == old(store)@.mark_processed(nonce),
        marked == !old(store)@.is_processed(nonce as int),
{
    proof {
        use_type_invariant(&*store);
    }
    if store.holds_processed(nonce) {
        return false;
    }
    let ghost before = store@;
    let EventStore { deposits, distributions, mut processed } = store.take();
    processed.push(nonce);
    proof {
        assert(processed@ =~= before.processed.push(nonce));
        assert forall|i: int, j: int| 0 <= i < j < processed@.len() implies #[trigger] processed@[i]
            != #[trigger] processed@[j] by {
            if j < before.processed.len() {
                assert(processed@[i] == before.processed[i] && processed@[j] == before.processed[j]);
            } else {
                assert(processed@[i] == before.processed[i]);
            }
        }
        assert(deposit_views(deposits@) == before.deposits);
        assert(distribution_views(distributions@) == before.distributions);
        let grown = EventStoreView {
            deposits: before.deposits,
            distributions: before.distributions,
            processed: processed@,
        };
        assert(grown.wf());
    }
    *store = EventStore { deposits, distributions, processed };
    true
}

/// Lists the pending transfers: nonce and chain of every stored deposit
/// whose nonce the ledger does not hold, oldest deposit first.
pub fn get_pending_transactions(store: &EventStore) -> (list: Vec<(u64, String)>)
    ensures
        pending_pairs(list@) == store@.pending(),
        forall|nonce: int, chain: Seq<char>|
            #[trigger] pending_pairs(list@).contains((nonce, chain)) <==> store@.has_deposit(
                nonce,
                chain,
            ) && !store@.is_processed(nonce),
        pending_pairs(list@).no_duplicates(),
{
    proof {
        use_type_invariant(store);
        lemma_pending_members(store@);
        lemma_pending_distinct(store@);
    }
    let mut list: Vec<(u64, String)> = Vec::new();
    let mut i: usize = 0;
    assert(store@.deposits.take(0) =~= Seq::empty());
    assert(pending_pairs(list@) =~= pending_until(store@, 0)) by {
        reveal(Seq::filter);
    }
    while i < store.deposits.len()
        invariant
            i <= store.deposits.len(),
            store@.wf(),
            pending_pairs(list@) == pending_until(store@, i as int),
        decreases store.deposits.len() - i,
    {
        let row = &store.deposits[i];
        assert(store@.deposits[i as int] == row@);
        proof {
            lemma_pending_step(store@, i as int);
        }
        if !store.holds_processed(row.details.nonce as u64) {
            let ghost earlier = list@;
            list.push((row.details.nonce as u64, row.chain.clone()));
            assert(pending_pairs(list@) =~= pending_pairs(earlier).push(deposit_key(row@)));
        }
        i = i + 1;
    }
    assert(store@.deposits.take(i as int) =~= store@.deposits);
    list
}

/// Looks up the deposit with this nonce. Where several chains hold a deposit
/// with the nonce, the one stored first is returned.
pub fn get_deposit_details(store: &EventStore, nonce: u64) -> (found: Option<DepositDetails>)
    ensures
        match found {
            Some(details) => store@.deposit_details(nonce as int) == Some(details@),
            None => store@.deposit_details(nonce as int) is None,
        },
{
    proof {
        use_type_invariant(store);
    }
    let mut i: usize = 0;
    assert(store@.deposits.skip(0) =~= store@.deposits);
    while i < store.deposits.len()
        invariant
            i <= store.deposits.len(),
            store@.wf(),
            store@.deposit_details(nonce as int) == first_with_nonce(
                store@.deposits.skip(i as int),
                nonce as int,
            ),
        decreases store.deposits.len() - i,
    {
        let row = &store.deposits[i];
        assert(store@.deposits[i as int] == row@);
        assert(store@.deposits.skip(i as int).first() == row@);
        assert(store@.deposits.skip(i as int).drop_first() =~= store@.deposits.skip(i + 1));
        if row.details.nonce as u64 == nonce {
            let details = DepositDetails {
                token: row.details.token.clone(),
                from: row.details.from.clone(),
                to: row.details.to.clone(),
                amount: row.details.amount,
                nonce: row.details.nonce,
            };
            return Some(details);
        }
        i = i + 1;
    }
    None
}

/// The pending transfers among the first `n` deposits.
pub open spec fn pending_until(store: EventStoreView, n: int) -> Seq<(int, Seq<char>)> {
    store.deposits.take(n).filter(store.unprocessed()).map_values(pending_key())
}

proof fn lemma_pending_step(store: EventStoreView, i: int)
    requires
        0 <= i < store.deposits.len(),
    ensures
        pending_until(store, i + 1) == if store.is_processed(store.deposits[i].details.nonce) {
            pending_until(store, i)
        } else {
            pending_until(store, i).push(deposit_key(store.deposits[i]))
        },
{
    reveal(Seq::filter);
    let longer = store.deposits.take(i + 1);
    assert(longer.drop_last() =~= store.deposits.take(i));
    assert(longer.last() == store.deposits[i]);
    let kept = store.deposits.take(i).filter(store.unprocessed());
    if !store.is_processed(store.deposits[i].details.nonce) {
        assert(longer.filter(store.unprocessed()) == kept.push(store.deposits[i]));
        assert(kept.push(store.deposits[i]).map_values(pending_key()) =~= kept.map_values(
            pending_key(),
        ).push(deposit_key(store.deposits[i])));
    }
}

/// A pair is pending exactly when its deposit is stored and its nonce is not in the ledger.
pub proof fn lemma_pending_members(store: EventStoreView)
    ensures
        forall|nonce: int, chain: Seq<char>|
            #[trigger] store.pending().contains((nonce, chain)) <==> store.has_deposit(nonce, chain)
                && !store.is_processed(nonce),
{
    let kept = store.deposits.filter(store.unprocessed());
    assert forall|nonce: int, chain: Seq<char>| #[trigger]
        store.pending().contains((nonce, chain)) <==> store.has_deposit(nonce, chain)
            && !store.is_processed(nonce) by {
        if store.pending().contains((nonce, chain)) {
            let k = choose|k: int| 0 <= k < store.pending().len() && store.pending()[k] == (nonce, chain);
            assert(store.pending()[k] == deposit_key(kept[k]));
            store.deposits.lemma_filter_pred(store.unprocessed(), k);
            assert(kept.contains(kept[k]));
            store.deposits.lemma_filter_contains_rev(store.unprocessed(), kept[k]);
            let i = choose|i: int| 0 <= i < store.deposits.len() && store.deposits[i] == kept[k];
            assert(store.deposits[i].details.nonce == nonce && store.deposits[i].chain == chain);
        }
        if store.has_deposit(nonce, chain) && !store.is_processed(nonce) {
            let i = choose|i: int|
                0 <= i < store.deposits.len() && (#[trigger] store.deposits[i]).details.nonce == nonce
                    && store.deposits[i].chain == chain;
            store.deposits.lemma_filter_contains(store.unprocessed(), i);
            let k = choose|k: int| 0 <= k < kept.len() && kept[k] == store.deposits[i];
            assert(store.pending()[k] == (nonce, chain));
        }
    }
}

/// In a well-formed store no pair is pending twice.
pub proof fn lemma_pending_distinct(store: EventStoreView)
    requires
        store.wf(),
    ensures
        store.pending().no_duplicates(),
    decreases store.deposits.len(),
{
    lemma_pending_prefix_distinct(store, store.deposits.len() as int);
    assert(store.deposits.take(store.deposits.len() as int) =~= store.deposits);
}

/// One of the first `n` deposits has this key.
spec fn key_among(store: EventStoreView, n: int, key: (int, Seq<char>)) -> bool {
    exists|i: int| 0 <= i < n && deposit_key(#[trigger] store.deposits[i]) == key
}

proof fn lemma_pending_prefix_distinct(store: EventStoreView, n: int)
    requires
        store.wf(),
        0 <= n <= store.deposits.len(),
    ensures
        pending_until(store, n).no_duplicates(),
        forall|k: int|
            0 <= k < pending_until(store, n).len() ==> key_among(
                store,
                n,
                #[trigger] pending_until(store, n)[k],
            ),
    decreases n,
{
    if n == 0 {
        reveal(Seq::filter);
        assert(store.deposits.take(0) =~= Seq::empty());
    } else {
        lemma_pending_prefix_distinct(store, n - 1);
        lemma_pending_step(store, n - 1);
        let shorter = pending_until(store, n - 1);
        let longer = pending_until(store, n);
        if !store.is_processed(store.deposits[n - 1].details.nonce) {
            assert forall|a: int, b: int| 0 <= a < longer.len() && 0 <= b < longer.len() && a
                != b implies longer[a] != longer[b] by {
                if a < shorter.len() && b < shorter.len() {
                } else if a < shorter.len() {
                    assert(key_among(store, n - 1, shorter[a]));
                    let i = choose|i: int|
                        0 <= i < n - 1 && deposit_key(#[trigger] store.deposits[i]) == shorter[a];
                    assert(store.deposits[i].details.nonce != store.deposits[n - 1].details.nonce
                        || store.deposits[i].chain != store.deposits[n - 1].chain);
                } else {
                    assert(key_among(store, n - 1, shorter[b]));
                    let i = choose|i: int|
                        0 <= i < n - 1 && deposit_key(#[trigger] store.deposits[i]) == shorter[b];
                    assert(store.deposits[i].details.nonce != store.deposits[n - 1].details.nonce
                        || store.deposits[i].chain != store.deposits[n - 1].chain);
                }
            }
            assert forall|k: int| 0 <= k < longer.len() implies key_among(
                store,
                n,
                #[trigger] longer[k],
            ) by {
                if k < shorter.len() {
                    assert(key_among(store, n - 1, shorter[k]));
                    let i = choose|i: int|
                        0 <= i < n - 1 && deposit_key(#[trigger] store.deposits[i]) == shorter[k];
                    assert(deposit_key(store.deposits[i]) == longer[k]);
                } else {
                    assert(deposit_key(store.deposits[n - 1]) == longer[k]);
                }
            }
        } else {
            assert forall|k: int| 0 <= k < longer.len() implies key_among(
                store,
                n,
                #[trigger] longer[k],
            ) by {
                assert(key_among(store, n - 1, shorter[k]));
                let i = choose|i: int|
                    0 <= i < n - 1 && deposit_key(#[trigger] store.deposits[i]) == shorter[k];
                assert(deposit_key(store.deposits[i]) == longer[k]);
            }
        }
    }
}

} // verus!
