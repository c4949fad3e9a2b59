//! The idempotency store: which transactions an earlier run of a script has
//! already brought onto the chain, and with what outcome.
//!
//! The store is loaded when a script starts and grows as its operations
//! succeed. A store made without a backing file records nothing: every run
//! against it executes in full.

use crate::felt::{copy_felts, Felt};
use vstd::prelude::*;
use vstd::string::StringExecFns;

verus! {

/// What was recorded of a transaction.
#[derive(Debug, PartialEq, Eq)]
pub enum RecordedOutcome {
    /// The transaction succeeded, with this response.
    Success(Vec<Felt>),
    /// The transaction was attempted and failed.
    Failure,
}

/// One entry of the store.
#[derive(Debug, PartialEq, Eq)]
pub struct TransactionRecord {
    /// The identifier of the transaction.
    pub identity: String,
    /// The name of the cheatcode that made it.
    pub selector: String,
    pub outcome: RecordedOutcome,
}

/// A recorded outcome as a mathematical value.
pub enum OutcomeView {
    Success(Seq<Felt>),
    Failure,
}

/// An entry of the store as a mathematical value, without its identifier.
pub struct RecordView {
    pub selector: Seq<char>,
    pub outcome: OutcomeView,
}

impl View for RecordedOutcome {
    type V = OutcomeView;

    open spec fn view(&self) -> OutcomeView {
        match self {
            RecordedOutcome::Success(output) => OutcomeView::Success(output@),
            RecordedOutcome::Failure => OutcomeView::Failure,
        }
    }
}

impl View for TransactionRecord {
    type V = RecordView;

    open spec fn view(&self) -> RecordView {
        RecordView { selector: self.selector@, outcome: self.outcome@ }
    }
}

impl RecordedOutcome {
    /// A copy of the outcome.
    pub fn duplicate(&self) -> (copy: RecordedOutcome)
        ensures
            copy@ == self@,
    {
        match self {
            RecordedOutcome::Success(output) => RecordedOutcome::Success(
                copy_felts(output.as_slice()),
            ),
            RecordedOutcome::Failure => RecordedOutcome::Failure,
        }
    }
}

impl TransactionRecord {
    /// A copy of the entry.
    pub fn duplicate(&self) -> (copy: TransactionRecord)
        ensures
            copy@ == self@,
            copy.identity@ == self.identity@,
    {
        TransactionRecord {
            identity: self.identity.clone(),
            selector: self.selector.clone(),
            outcome: self.outcome.duplicate(),
        }
    }
}

/// The mapping that a list of entries stands for: each identifier goes to
/// the last entry that has it.
pub open spec fn records_map(records: Seq<TransactionRecord>) -> Map<Seq<char>, RecordView>
    decreases records.len(),
{
    if records.len() == 0 {
        Map::empty()
    } else {
        records_map(records.drop_last()).insert(records.last().identity@, records.last()@)
    }
}

/// The successful output that a mapping holds for an identifier, if any.
pub open spec fn success_output(entries: Map<Seq<char>, RecordView>, tx_id: Seq<char>) -> Option<
    Seq<Felt>,
> {
    if entries.contains_key(tx_id) {
        match entries[tx_id].outcome {
            OutcomeView::Success(output) => Some(output),
            OutcomeView::Failure => None,
        }
    } else {
        None
    }
}

/// The entries as mathematical values, in order.
pub open spec fn record_views(records: Seq<TransactionRecord>) -> Seq<(Seq<char>, RecordView)> {
    Seq::new(records.len(), |i: int| (records[i].identity@, records[i]@))
}

/// The last entry with an identifier decides what the mapping holds for it.
proof fn lemma_records_map_at(records: Seq<TransactionRecord>, tx_id: Seq<char>, at: int)
    requires
        0 <= at < records.len(),
        records[at].identity@ == tx_id,
        forall|j: int| at < j < records.len() ==> records[j].identity@ != tx_id,
    ensures
        records_map(records).contains_key(tx_id),
        records_map(records)[tx_id] == records[at]@,
    decreases records.len(),
{
    if at < records.len() - 1 {
        lemma_records_map_at(records.drop_last(), tx_id, at);
    }
}

/// An identifier that no entry has is not in the mapping.
proof fn lemma_records_map_absent(records: Seq<TransactionRecord>, tx_id: Seq<char>)
    requires
        forall|j: int| 0 <= j < records.len() ==> records[j].identity@ != tx_id,
    ensures
        !records_map(records).contains_key(tx_id),
    decreases records.len(),
{
    if records.len() > 0 {
        lemma_records_map_absent(records.drop_last(), tx_id);
    }
}

/// The idempotency store of one script run.
pub struct StateManager {
    persistent: bool,
    records: Vec<TransactionRecord>,
    loaded: usize,
}

impl View for StateManager {
    type V = Map<Seq<char>, RecordView>;

    /// What the store holds: for each recorded identifier its entry.
    closed spec fn view(&self) -> Map<Seq<char>, RecordView> {
        records_map(self.records@)
    }
}

impl StateManager {
    #[verifier::type_invariant]
    spec fn well_formed(self) -> bool {
        &&& self.loaded <= self.records.len()
        &&& !self.persistent ==> self.records.len() == 0
    }

    /// Whether the store has a backing file, so that what it records
    /// outlives the run.
    pub closed spec fn is_persistent(&self) -> bool {
        self.persistent
    }

    /// The entries that this run has added, oldest first.
    pub closed spec fn added(&self) -> Seq<(Seq<char>, RecordView)> {
        record_views(self.records@.subrange(self.loaded as int, self.records.len() as int))
    }

    /// The successful output recorded for an identifier, if any.
    pub open spec fn lookup(&self, tx_id: Seq<char>) -> Option<Seq<Felt>> {
        success_output(self@, tx_id)
    }

    /// The store for a run: with the entries of earlier runs where the run
    /// has a state file, and one that records nothing where it has none.
    pub fn from(previous: Option<Vec<TransactionRecord>>) -> (state: StateManager)
        ensures
            state.is_persistent() == previous is Some,
            state@ == match previous {
                Some(records) => records_map(records@),
                None => Map::<Seq<char>, RecordView>::empty(),
            },
            state.added() == Seq::<(Seq<char>, RecordView)>::empty(),
    {
        match previous {
            Some(records) => {
                let loaded = records.len();
                let state = StateManager { persistent: true, records, loaded };
                assert(state.added() =~= Seq::<(Seq<char>, RecordView)>::empty());
                state
            },
            None => {
                let state = StateManager { persistent: false, records: Vec::new(), loaded: 0 };
                assert(state.added() =~= Seq::<(Seq<char>, RecordView)>::empty());
                state
            },
        }
    }

    /// Whether the store has a backing file. One that has none is empty and
    /// stays so.
    pub fn persistent(&self) -> (persistent: bool)
        ensures
            persistent == self.is_persistent(),
            !persistent ==> self@ == Map::<Seq<char>, RecordView>::empty(),
            !persistent ==> self.added() == Seq::<(Seq<char>, RecordView)>::empty(),
    {
        proof {
            use_type_invariant(self);
            if !self.persistent {
                assert(self.records@ =~= Seq::<TransactionRecord>::empty());
                assert(self.added() =~= Seq::<(Seq<char>, RecordView)>::empty());
            }
        }
        self.persistent
    }

    /// The output of the transaction where an earlier attempt succeeded. A
    /// recorded failure is not returned.
    pub fn get_output_if_success(&self, tx_id: &str) -> (output: Option<Vec<Felt>>)
        ensures
            output is Some <==> self.lookup(tx_id@) is Some,
            output matches Some(felts) ==> self.lookup(tx_id@) == Some(felts@),
    {
        let wanted = String::from_str(tx_id);
        let mut i: usize = self.records.len();
        while i > 0
            invariant
                i <= self.records.len(),
                wanted@ == tx_id@,
                forall|j: int| i <= j < self.records.len() ==> self.records@[j].identity@ != tx_id@,
            decreases i,
        {
            i = i - 1;
            if self.records[i].identity == wanted {
                proof {
                    lemma_records_map_at(self.records@, tx_id@, i as int);
                }
                return match &self.records[i].outcome {
                    RecordedOutcome::Success(output) => Some(copy_felts(output.as_slice())),
                    RecordedOutcome::Failure => None,
                };
            }
        }
        proof {
            lemma_records_map_absent(self.records@, tx_id@);
        }
        None
    }

    /// Records the outcome of a chain operation: a success is added to a
    /// persistent store, a failure never is, and a store without a backing file
    /// stays empty. Returns whether an entry was added, which then has to
    /// reach the state file before the script goes on.
    pub fn maybe_insert_tx_entry(
        &mut self,
        tx_id: &str,
        selector: &str,
        result: &Result<Vec<Felt>, Vec<Felt>>,
    ) -> (inserted: bool)
        requires
            result is Ok ==> old(self).lookup(tx_id@) is None,
        ensures
            final(self).is_persistent() == old(self).is_persistent(),
            inserted == (result is Ok && old(self).is_persistent()),
            inserted ==> final(self)@ == old(self)@.insert(
                tx_id@,
                RecordView {
                    selector: selector@,
                    outcome: OutcomeView::Success(result->Ok_0@),
                },
            ),
            inserted ==> final(self).added() == old(self).added().push(
                (
                    tx_id@,
                    RecordView {
                        selector: selector@,
                        outcome: OutcomeView::Success(result->Ok_0@),
                    },
                ),
            ),
            !inserted ==> final(self)@ == old(self)@ && final(self).added() == old(self).added(),
    {
        proof {
            use_type_invariant(&*self);
        }
        match result {
            Ok(output) => {
                if self.persistent {
                    let record = TransactionRecord {
                        identity: String::from_str(tx_id),
                        selector: String::from_str(selector),
                        outcome: RecordedOutcome::Success(copy_felts(output.as_slice())),
                    };
                    let mut taken = StateManager::from(None);
                    core::mem::swap(self, &mut taken);
                    let StateManager { persistent, mut records, loaded } = taken;
                    let ghost before = records@;
                    records.push(record);
                    proof {
                        assert(records@.drop_last() =~= before);
                        let from = loaded as int;
                        assert(records@.subrange(from, records.len() as int) =~= before.subrange(
                            from,
                            before.len() as int,
                        ).push(record));
                        assert(record_views(
                            before.subrange(from, before.len() as int).push(record),
                        ) =~= record_views(before.subrange(from, before.len() as int)).push(
                            (record.identity@, record@),
                        ));
                    }
                    *self = StateManager { persistent, records, loaded };
                    true
                } else {
                    false
                }
            },
            Err(_) => false,
        }
    }

    /// The entries that this run has added, oldest first: what has to be
    /// merged into the state file.
    pub fn new_entries(&self) -> (entries: Vec<TransactionRecord>)
        ensures
            record_views(entries@) == self.added(),
    {
        proof {
            use_type_invariant(self);
        }
        let mut entries: Vec<TransactionRecord> = Vec::new();
        let mut i: usize = self.loaded;
        while i < self.records.len()
            invariant
                self.loaded <= i <= self.records.len(),
                entries@.len() == i - self.loaded,
                forall|k: int|
                    0 <= k < entries@.len() ==> entries@[k]@ == self.records@[self.loaded + k]@
                        && entries@[k].identity@ == self.records@[self.loaded + k].identity@,
            decreases self.records.len() - i,
        {
            entries.push(self.records[i].duplicate());
            i = i + 1;
        }
        assert(record_views(entries@) =~= self.added());
        entries
    }
}

/// Recording a success for one identifier changes no answer for another,
/// and answers with the recorded output for the identifier itself.
pub proof fn law_record_is_local(
    entries: Map<Seq<char>, RecordView>,
    tx_id: Seq<char>,
    selector: Seq<char>,
    output: Seq<Felt>,
    other: Seq<char>,
)
    ensures
        success_output(
            entries.insert(
                tx_id,
                RecordView { selector, outcome: OutcomeView::Success(output) },
            ),
            tx_id,
        ) == Some(output),
        other != tx_id ==> success_output(
            entries.insert(
                tx_id,
                RecordView { selector, outcome: OutcomeView::Success(output) },
            ),
            other,
        ) == success_output(entries, other),
{
}

} // verus!
