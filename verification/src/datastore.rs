//! The datastores of addresses: `get_datastore_entries`.

use crate::api::{Public, API};
use crate::models::Address;
use vstd::prelude::*;

verus! {

/// A request for one entry of a datastore.
#[derive(PartialEq, Eq, Debug)]
pub struct DatastoreEntryInput {
    /// The address to which the datastore belongs.
    pub address: Address,
    /// The key of the entry.
    pub key: Vec<u8>,
}

/// One entry of a datastore.
#[derive(PartialEq, Eq, Debug)]
pub struct DatastoreEntryOutput {
    /// The value in the final state, if there is one.
    pub final_value: Option<Vec<u8>>,
    /// The value in the candidate state, if there is one.
    pub candidate_value: Option<Vec<u8>>,
}

/// What execution is asked: the address and the key of each entry.
pub open spec fn entry_queries(entries: Seq<DatastoreEntryInput>) -> Seq<(Address, Vec<u8>)> {
    entries.map_values(|input: DatastoreEntryInput| (input.address, input.key))
}

/// The answer: the final and the candidate value of each entry.
pub open spec fn entry_outputs(
    values: Seq<(Option<Vec<u8>>, Option<Vec<u8>>)>,
) -> Seq<DatastoreEntryOutput> {
    values.map_values(
        |output: (Option<Vec<u8>>, Option<Vec<u8>>)|
            DatastoreEntryOutput { final_value: output.0, candidate_value: output.1 },
    )
}

impl<Consensus, Execution, Selector, Pool, Network, Storage> API<
    Public<Consensus, Execution, Selector, Pool, Network, Storage>,
> {
    /// Begins a request for entries: what to ask execution for, entry by entry.
    pub fn get_datastore_entries(&self, entries: Vec<DatastoreEntryInput>) -> (queries: Vec<
        (Address, Vec<u8>),
    >)
        ensures
            queries@ == entry_queries(entries@),
    {
        let mut queries: Vec<(Address, Vec<u8>)> = Vec::with_capacity(entries.len());
        for input in it: entries
            invariant
                it.seq() == entries@,
                queries@ =~= entry_queries(entries@).take(it.index() as int),
        {
            queries.push((input.address, input.key));
        }
        assert(queries@ =~= entry_queries(entries@));
        queries
    }

    /// Compiles the answer from the final and the candidate value that
    /// execution has for each entry.
    pub fn datastore_entries(&self, values: Vec<(Option<Vec<u8>>, Option<Vec<u8>>)>) -> (outputs:
        Vec<DatastoreEntryOutput>)
        ensures
            outputs@ == entry_outputs(values@),
    {
        let mut outputs: Vec<DatastoreEntryOutput> = Vec::with_capacity(values.len());
        for output in it: values
            invariant
                it.seq() == values@,
                outputs@ =~= entry_outputs(values@).take(it.index() as int),
        {
            outputs.push(
                DatastoreEntryOutput { final_value: output.0, candidate_value: output.1 },
            );
        }
        assert(outputs@ =~= entry_outputs(values@));
        outputs
    }
}

/// Where execution answers every query, the answer has one entry for each that
/// was requested, in the same order: what execution has under that address and
/// key.
pub proof fn law_one_output_per_entry(
    entries: Seq<DatastoreEntryInput>,
    state: spec_fn((Address, Vec<u8>)) -> (Option<Vec<u8>>, Option<Vec<u8>>),
)
    ensures
        ({
            let outputs = entry_outputs(entry_queries(entries).map_values(state));
            &&& outputs.len() == entries.len()
            &&& forall|i: int|
                0 <= i < entries.len() ==> {
                    let value = state((entries[i].address, entries[i].key));
                    &&& (#[trigger] outputs[i]).final_value == value.0
                    &&& outputs[i].candidate_value == value.1
                }
        }),
{
}

/// Execution is asked for exactly the entries of the request, each under its own
/// address and key, in order; and of what it says, the final value and the
/// candidate value of each entry are told as such, at the same place.
pub proof fn law_entries_are_asked_and_told_as_they_are<
    Consensus,
    Execution,
    Selector,
    Pool,
    Network,
    Storage,
>(
    api: API<Public<Consensus, Execution, Selector, Pool, Network, Storage>>,
    entries: Vec<DatastoreEntryInput>,
    queries: Vec<(Address, Vec<u8>)>,
    values: Vec<(Option<Vec<u8>>, Option<Vec<u8>>)>,
    outputs: Vec<DatastoreEntryOutput>,
)
    requires
        call_ensures(
            API::<
                Public<Consensus, Execution, Selector, Pool, Network, Storage>,
            >::get_datastore_entries,
            (&api, entries),
            queries,
        ),
        call_ensures(
            API::<
                Public<Consensus, Execution, Selector, Pool, Network, Storage>,
            >::datastore_entries,
            (&api, values),
            outputs,
        ),
    ensures
        queries@.len() == entries@.len(),
        forall|i: int|
            0 <= i < entries@.len() ==> {
                &&& (#[trigger] queries@[i]).0 == entries@[i].address
                &&& queries@[i].1 == entries@[i].key
            },
        outputs@.len() == values@.len(),
        forall|i: int|
            0 <= i < values@.len() ==> {
                &&& (#[trigger] outputs@[i]).final_value == values@[i].0
                &&& outputs@[i].candidate_value == values@[i].1
            },
{
}

} // verus!
