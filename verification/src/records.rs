//! Looking up operations and endorsements: `get_operations` and
//! `get_endorsements`.
//!
//! Storage is asked for each identifier of the request. Then the other services
//! are asked about those that it knows, and what all of them say is compiled
//! into one record for each, in the order of the request.

use crate::api::{Public, API};
use crate::error::{check_arguments, too_many_arguments, ApiError};
use crate::id_set::IdSet;
use crate::models::{BlockId, EndorsementId, OperationId, Wrapped};
use crate::sequences::{lemma_filter_map_push, zip, zipped};
use vstd::prelude::*;

verus! {

/// What storage says of one identifier. `T` is the type of the content that is
/// stored.
pub struct Lookup<Id, T> {
    /// What is stored under the identifier, if anything.
    pub item: Option<Wrapped<Id, T>>,
    /// The blocks that hold it, if storage knows of any.
    pub containing_blocks: Option<IdSet<BlockId>>,
}

/// What the node knows of an operation. `Status` is the type of what execution
/// says of it.
#[derive(PartialEq, Eq, Debug)]
pub struct OperationInfo<T, Status> {
    pub id: OperationId,
    pub operation: Wrapped<OperationId, T>,
    /// Whether the operation waits in the pool.
    pub in_pool: bool,
    /// The blocks that hold the operation.
    pub in_blocks: Vec<BlockId>,
    pub execution_status: Status,
}

/// What the node knows of an endorsement.
#[derive(PartialEq, Eq, Debug)]
pub struct EndorsementInfo<T> {
    pub id: EndorsementId,
    pub endorsement: Wrapped<EndorsementId, T>,
    /// Whether the endorsement waits in the pool.
    pub in_pool: bool,
    /// The blocks that hold the endorsement.
    pub in_blocks: Vec<BlockId>,
}

/// An [`OperationInfo`] with its blocks as a set.
pub struct OperationInfoView<T, Status> {
    pub id: OperationId,
    pub operation: Wrapped<OperationId, T>,
    pub in_pool: bool,
    pub in_blocks: Set<BlockId>,
    pub execution_status: Status,
}

/// An [`EndorsementInfo`] with its blocks as a set.
pub struct EndorsementInfoView<T> {
    pub id: EndorsementId,
    pub endorsement: Wrapped<EndorsementId, T>,
    pub in_pool: bool,
    pub in_blocks: Set<BlockId>,
}

impl<T, Status> View for OperationInfo<T, Status> {
    type V = OperationInfoView<T, Status>;

    open spec fn view(&self) -> OperationInfoView<T, Status> {
        OperationInfoView {
            id: self.id,
            operation: self.operation,
            in_pool: self.in_pool,
            in_blocks: self.in_blocks@.to_set(),
            execution_status: self.execution_status,
        }
    }
}

impl<T> View for EndorsementInfo<T> {
    type V = EndorsementInfoView<T>;

    open spec fn view(&self) -> EndorsementInfoView<T> {
        EndorsementInfoView {
            id: self.id,
            endorsement: self.endorsement,
            in_pool: self.in_pool,
            in_blocks: self.in_blocks@.to_set(),
        }
    }
}

/// The set that is given, or the empty one.
pub open spec fn set_or_empty<T>(set: Option<IdSet<T>>) -> Set<T> {
    match set {
        Some(set) => set@,
        None => Set::empty(),
    }
}

/// The set that is given, or the empty one.
pub(crate) fn or_empty<T>(set: Option<IdSet<T>>) -> (result: IdSet<T>)
    ensures
        result@ == set_or_empty(set),
{
    match set {
        Some(set) => set,
        None => IdSet::new(),
    }
}

/// Whether storage knows the identifier that was looked up.
pub open spec fn is_found<Id, T>(lookup: Lookup<Id, T>) -> bool {
    lookup.item is Some
}

/// What storage holds for an identifier that it knows, with the blocks in which
/// it occurs.
pub open spec fn record<Id, T>(lookup: Lookup<Id, T>) -> (Wrapped<Id, T>, Set<BlockId>) {
    (lookup.item->0, set_or_empty(lookup.containing_blocks))
}

/// What storage holds for the identifiers that it knows, in the order in which
/// they were looked up.
pub open spec fn found<Id, T>(lookups: Seq<Lookup<Id, T>>) -> Seq<
    (Wrapped<Id, T>, Set<BlockId>),
> {
    lookups.filter(|lookup: Lookup<Id, T>| is_found(lookup)).map_values(
        |lookup: Lookup<Id, T>| record(lookup),
    )
}

/// The identifiers of the records, in order.
pub open spec fn ids_of<Id, T>(records: Seq<(Wrapped<Id, T>, Set<BlockId>)>) -> Seq<Id> {
    records.map_values(|record: (Wrapped<Id, T>, Set<BlockId>)| record.0.id)
}

/// The records that storage found for a request, about which the other services
/// are to be asked.
pub struct Found<Id, T> {
    max_arguments: u64,
    records: Vec<(Wrapped<Id, T>, IdSet<BlockId>)>,
    ids: Vec<Id>,
}

/// The records with their blocks as sets.
spec fn record_views<Id, T>(records: Seq<(Wrapped<Id, T>, IdSet<BlockId>)>) -> Seq<
    (Wrapped<Id, T>, Set<BlockId>),
> {
    records.map_values(|record: (Wrapped<Id, T>, IdSet<BlockId>)| (record.0, record.1@))
}

impl<Id, T> Found<Id, T> {
    #[verifier::type_invariant]
    spec fn lists_the_ids_of_its_records(self) -> bool {
        self.ids@ == ids_of(record_views(self.records@))
    }

    /// The records, in the order of the request.
    pub closed spec fn records(self) -> Seq<(Wrapped<Id, T>, Set<BlockId>)> {
        record_views(self.records@)
    }

    /// The limit on the number of records.
    pub closed spec fn max_arguments(self) -> u64 {
        self.max_arguments
    }

    /// The identifiers about which the other services are to be asked.
    pub fn ids(&self) -> (ids: &Vec<Id>)
        ensures
            ids@ == ids_of(self.records()),
    {
        proof {
            use_type_invariant(self);
        }
        &self.ids
    }
}

/// Keeps what storage knows.
fn keep_found<Id: Copy, T>(lookups: Vec<Lookup<Id, T>>, max_arguments: u64) -> (kept: Found<Id, T>)
    ensures
        kept.records() == found(lookups@),
        kept.max_arguments() == max_arguments,
{
    let mut records: Vec<(Wrapped<Id, T>, IdSet<BlockId>)> = Vec::new();
    let mut ids: Vec<Id> = Vec::new();
    assert(found(lookups@.take(0)) =~= Seq::empty()) by {
        reveal(Seq::filter);
    }
    assert(record_views(records@) =~= Seq::empty());
    for lookup in it: lookups
        invariant
            it.seq() == lookups@,
            record_views(records@) == found(lookups@.take(it.index() as int)),
            ids@ =~= ids_of(record_views(records@)),
    {
        let ghost before = records@;
        proof {
            let i = it.index() as int;
            assert(lookup == lookups@[i]);
            lemma_filter_map_push(
                lookups@.take(i),
                lookup,
                |lookup: Lookup<Id, T>| is_found(lookup),
                |lookup: Lookup<Id, T>| record(lookup),
            );
            assert(lookups@.take(i).push(lookup) =~= lookups@.take(i + 1));
        }
        match lookup.item {
            Some(item) => {
                let containing_blocks = or_empty(lookup.containing_blocks);
                ids.push(item.id);
                records.push((item, containing_blocks));
                assert(record_views(records@) =~= record_views(before).push(
                    (item, containing_blocks@),
                ));
            },
            None => {},
        }
    }
    assert(lookups@.take(lookups@.len() as int) =~= lookups@);
    Found { max_arguments, records, ids }
}

/// What is compiled of operations that storage knows, what the pool says and
/// what execution says. Where a service says less than it was asked, the
/// operations in excess are dropped.
pub open spec fn operation_infos<T, Status>(
    records: Seq<(Wrapped<OperationId, T>, Set<BlockId>)>,
    in_pool: Seq<bool>,
    execution_statuses: Seq<Status>,
) -> Seq<OperationInfoView<T, Status>> {
    zipped(zipped(records, in_pool), execution_statuses).map_values(
        |reply: (((Wrapped<OperationId, T>, Set<BlockId>), bool), Status)|
            OperationInfoView {
                id: reply.0.0.0.id,
                operation: reply.0.0.0,
                in_pool: reply.0.1,
                in_blocks: reply.0.0.1,
                execution_status: reply.1,
            },
    )
}

/// What is compiled of endorsements that storage knows and what the pool says.
/// Where the pool says less than it was asked, the endorsements in excess are
/// dropped.
pub open spec fn endorsement_infos<T>(
    records: Seq<(Wrapped<EndorsementId, T>, Set<BlockId>)>,
    in_pool: Seq<bool>,
) -> Seq<EndorsementInfoView<T>> {
    zipped(records, in_pool).map_values(
        |reply: ((Wrapped<EndorsementId, T>, Set<BlockId>), bool)|
            EndorsementInfoView {
                id: reply.0.0.id,
                endorsement: reply.0.0,
                in_pool: reply.1,
                in_blocks: reply.0.1,
            },
    )
}

impl<T> Found<OperationId, T> {
    /// Compiles the answer from what the pool and execution say of the
    /// operations, in the order in which they were asked.
    pub fn operation_infos<Status>(
        self,
        in_pool: Vec<bool>,
        execution_statuses: Vec<Status>,
    ) -> (answer: Result<Vec<OperationInfo<T, Status>>, ApiError>)
        ensures
            match answer {
                Ok(infos) => {
                    &&& self.records().len() <= self.max_arguments()
                    &&& infos@.map_values(|info: OperationInfo<T, Status>| info@)
                        == operation_infos(self.records(), in_pool@, execution_statuses@)
                    &&& infos@.len() == operation_infos(
                        self.records(),
                        in_pool@,
                        execution_statuses@,
                    ).len()
                    &&& forall|i: int|
                        0 <= i < infos@.len() ==> {
                            &&& (#[trigger] infos@[i])@ == operation_infos(
                                self.records(),
                                in_pool@,
                                execution_statuses@,
                            )[i]
                            &&& infos@[i].in_blocks@.no_duplicates()
                        }
                },
                Err(error) => {
                    &&& self.records().len() > self.max_arguments()
                    &&& error@ == too_many_arguments()
                },
            },
    {
        if let Err(error) = check_arguments(self.records.len(), self.max_arguments) {
            return Err(error);
        }
        let ghost records = self.records@;
        let ghost expected = operation_infos(self.records(), in_pool@, execution_statuses@);
        let replies = zip(zip(self.records, in_pool), execution_statuses);
        let mut infos: Vec<OperationInfo<T, Status>> = Vec::with_capacity(replies.len());
        for reply in it: replies
            invariant
                it.seq() == replies@,
                replies@ == zipped(zipped(records, in_pool@), execution_statuses@),
                expected == operation_infos(
                    record_views(records),
                    in_pool@,
                    execution_statuses@,
                ),
                infos@.len() == it.index(),
                forall|i: int|
                    0 <= i < infos@.len() ==> {
                        &&& (#[trigger] infos@[i])@ == expected[i]
                        &&& infos@[i].in_blocks@.no_duplicates()
                    },
        {
            let ((record, in_pool), execution_status) = reply;
            let (operation, in_blocks) = record;
            infos.push(
                OperationInfo {
                    id: operation.id,
                    operation,
                    in_pool,
                    in_blocks: in_blocks.into_vec(),
                    execution_status,
                },
            );
        }
        assert(infos@.map_values(|info: OperationInfo<T, Status>| info@) =~= expected);
        Ok(infos)
    }
}

impl<T> Found<EndorsementId, T> {
    /// Compiles the answer from what the pool says of the endorsements, in the
    /// order in which it was asked.
    pub fn endorsement_infos(self, in_pool: Vec<bool>) -> (answer: Result<
        Vec<EndorsementInfo<T>>,
        ApiError,
    >)
        ensures
            match answer {
                Ok(infos) => {
                    &&& self.records().len() <= self.max_arguments()
                    &&& infos@.map_values(|info: EndorsementInfo<T>| info@) == endorsement_infos(
                        self.records(),
                        in_pool@,
                    )
                    &&& infos@.len() == endorsement_infos(self.records(), in_pool@).len()
                    &&& forall|i: int|
                        0 <= i < infos@.len() ==> {
                            &&& (#[trigger] infos@[i])@ == endorsement_infos(
                                self.records(),
                                in_pool@,
                            )[i]
                            &&& infos@[i].in_blocks@.no_duplicates()
                        }
                },
                Err(error) => {
                    &&& self.records().len() > self.max_arguments()
                    &&& error@ == too_many_arguments()
                },
            },
    {
        if let Err(error) = check_arguments(self.records.len(), self.max_arguments) {
            return Err(error);
        }
        let ghost records = self.records@;
        let ghost expected = endorsement_infos(self.records(), in_pool@);
        let replies = zip(self.records, in_pool);
        let mut infos: Vec<EndorsementInfo<T>> = Vec::with_capacity(replies.len());
        for reply in it: replies
            invariant
                it.seq() == replies@,
                replies@ == zipped(records, in_pool@),
                expected == endorsement_infos(record_views(records), in_pool@),
                infos@.len() == it.index(),
                forall|i: int|
                    0 <= i < infos@.len() ==> {
                        &&& (#[trigger] infos@[i])@ == expected[i]
                        &&& infos@[i].in_blocks@.no_duplicates()
                    },
        {
            let (record, in_pool) = reply;
            let (endorsement, in_blocks) = record;
            infos.push(
                EndorsementInfo {
                    id: endorsement.id,
                    endorsement,
                    in_pool,
                    in_blocks: in_blocks.into_vec(),
                },
            );
        }
        assert(infos@.map_values(|info: EndorsementInfo<T>| info@) =~= expected);
        Ok(infos)
    }
}

impl<Consensus, Execution, Selector, Pool, Network, Storage> API<
    Public<Consensus, Execution, Selector, Pool, Network, Storage>,
> {
    /// Begins a look-up of operations with what storage says of each identifier
    /// of the request.
    pub fn get_operations<T>(&self, lookups: Vec<Lookup<OperationId, T>>) -> (kept: Found<
        OperationId,
        T,
    >)
        ensures
            kept.records() == found(lookups@),
            kept.max_arguments() == self.max_arguments(),
    {
        keep_found(lookups, self.0.api_settings.max_arguments)
    }

    /// Begins a look-up of endorsements with what storage says of each
    /// identifier of the request.
    pub fn get_endorsements<T>(&self, lookups: Vec<Lookup<EndorsementId, T>>) -> (kept: Found<
        EndorsementId,
        T,
    >)
        ensures
            kept.records() == found(lookups@),
            kept.max_arguments() == self.max_arguments(),
    {
        keep_found(lookups, self.0.api_settings.max_arguments)
    }
}

/// The identifiers of a request that storage knows, in the order of the request.
pub open spec fn known<Id, T>(asked: Seq<Id>, lookups: Seq<Lookup<Id, T>>) -> Seq<Id> {
    zipped(asked, lookups).filter(
        |pair: (Id, Lookup<Id, T>)| is_found(pair.1),
    ).map_values(|pair: (Id, Lookup<Id, T>)| pair.0)
}

/// Whether storage answers under the identifiers that it was asked for.
pub open spec fn answers<Id, T>(asked: Seq<Id>, lookups: Seq<Lookup<Id, T>>) -> bool {
    &&& asked.len() == lookups.len()
    &&& forall|i: int|
        0 <= i < asked.len() && is_found(#[trigger] lookups[i]) ==> lookups[i].item->0.id
            == asked[i]
}

/// Where storage answers under the identifiers that it was asked for, the other
/// services are asked about those that it knows, in the order of the request.
pub proof fn law_found_in_request_order<Id, T>(asked: Seq<Id>, lookups: Seq<Lookup<Id, T>>)
    requires
        answers(asked, lookups),
    ensures
        ids_of(found(lookups)) == known(asked, lookups),
    decreases asked.len(),
{
    reveal(Seq::filter);
    let pairs = zipped(asked, lookups);
    let kept = |pair: (Id, Lookup<Id, T>)| is_found(pair.1);
    let first = |pair: (Id, Lookup<Id, T>)| pair.0;
    if asked.len() == 0 {
        assert(ids_of(found(lookups)) =~= pairs.filter(kept).map_values(first));
    } else {
        let before = pairs.drop_last();
        law_found_in_request_order(asked.drop_last(), lookups.drop_last());
        assert(before =~= zipped(asked.drop_last(), lookups.drop_last()));
        lemma_filter_map_push(
            lookups.drop_last(),
            lookups.last(),
            |lookup: Lookup<Id, T>| is_found(lookup),
            |lookup: Lookup<Id, T>| record(lookup),
        );
        lemma_filter_map_push(before, pairs.last(), kept, first);
        assert(before.push(pairs.last()) =~= pairs);
        assert(lookups.drop_last().push(lookups.last()) =~= lookups);
        if is_found(lookups.last()) {
            assert(ids_of(found(lookups)) =~= ids_of(found(lookups.drop_last())).push(asked.last()));
        }
    }
}

/// Where every service answers all that it is asked, the answer to a request
/// for operations has one record for each operation that storage knows, in the
/// order of the request, under the operation's own identifier.
pub proof fn law_operations_in_request_order<T, Status>(
    asked: Seq<OperationId>,
    lookups: Seq<Lookup<OperationId, T>>,
    in_pool: Seq<bool>,
    execution_statuses: Seq<Status>,
)
    requires
        answers(asked, lookups),
        in_pool.len() == found(lookups).len(),
        execution_statuses.len() == found(lookups).len(),
    ensures
        ({
            let infos = operation_infos(found(lookups), in_pool, execution_statuses);
            &&& infos.map_values(|info: OperationInfoView<T, Status>| info.id) == known(
                asked,
                lookups,
            )
            &&& forall|i: int|
                0 <= i < infos.len() ==> (#[trigger] infos[i]).id == infos[i].operation.id
        }),
{
    law_found_in_request_order(asked, lookups);
    assert(operation_infos(found(lookups), in_pool, execution_statuses).map_values(
        |info: OperationInfoView<T, Status>| info.id,
    ) =~= ids_of(found(lookups)));
}

/// Where every service answers all that it is asked, the answer to a request
/// for endorsements has one record for each endorsement that storage knows, in
/// the order of the request, under the endorsement's own identifier.
pub proof fn law_endorsements_in_request_order<T>(
    asked: Seq<EndorsementId>,
    lookups: Seq<Lookup<EndorsementId, T>>,
    in_pool: Seq<bool>,
)
    requires
        answers(asked, lookups),
        in_pool.len() == found(lookups).len(),
    ensures
        ({
            let infos = endorsement_infos(found(lookups), in_pool);
            &&& infos.map_values(|info: EndorsementInfoView<T>| info.id) == known(asked, lookups)
            &&& forall|i: int|
                0 <= i < infos.len() ==> (#[trigger] infos[i]).id == infos[i].endorsement.id
        }),
{
    law_found_in_request_order(asked, lookups);
    assert(endorsement_infos(found(lookups), in_pool).map_values(
        |info: EndorsementInfoView<T>| info.id,
    ) =~= ids_of(found(lookups)));
}

/// The pool and execution are asked about exactly those operations of a request
/// that storage knows, in the order of the request. Each record of the answer
/// tells of one of them what storage holds, exactly the blocks in which storage
/// says it occurs, each once, and what the pool and execution say of it, whatever
/// the other services say and whatever is said of others. A request is refused
/// exactly if storage knows more than the limit.
pub proof fn law_operations_are_told_as_they_are_known<
    Consensus,
    Execution,
    Selector,
    Pool,
    Network,
    Storage,
    T,
    Status,
>(
    api: API<Public<Consensus, Execution, Selector, Pool, Network, Storage>>,
    lookups: Vec<Lookup<OperationId, T>>,
    kept: Found<OperationId, T>,
    ids: &Vec<OperationId>,
    in_pool: Vec<bool>,
    execution_statuses: Vec<Status>,
    answer: Result<Vec<OperationInfo<T, Status>>, ApiError>,
)
    requires
        call_ensures(
            API::<
                Public<Consensus, Execution, Selector, Pool, Network, Storage>,
            >::get_operations::<T>,
            (&api, lookups),
            kept,
        ),
        call_ensures(Found::<OperationId, T>::ids, (&kept,), ids),
        call_ensures(
            Found::<OperationId, T>::operation_infos::<Status>,
            (kept, in_pool, execution_statuses),
            answer,
        ),
    ensures
        ({
            let known = lookups@.filter(|lookup: Lookup<OperationId, T>| lookup.item is Some);
            &&& ids@.len() == known.len()
            &&& forall|i: int|
                0 <= i < known.len() ==> #[trigger] ids@[i] == known[i].item->0.id
            &&& answer is Ok <==> known.len() <= api.0.api_settings.max_arguments
            &&& answer matches Err(error) ==> (error matches ApiError::TooManyArguments(text)
                && text@ == "too many arguments"@)
            &&& answer matches Ok(infos) ==> {
                &&& infos@.len() <= known.len()
                &&& infos@.len() <= in_pool@.len()
                &&& infos@.len() <= execution_statuses@.len()
                &&& infos@.len() == known.len() || infos@.len() == in_pool@.len()
                    || infos@.len() == execution_statuses@.len()
                &&& forall|i: int|
                    0 <= i < infos@.len() ==> {
                        &&& (#[trigger] infos@[i]).id == known[i].item->0.id
                        &&& infos@[i].operation == known[i].item->0
                        &&& infos@[i].in_pool == in_pool@[i]
                        &&& infos@[i].execution_status == execution_statuses@[i]
                        &&& infos@[i].in_blocks@.no_duplicates()
                        &&& match known[i].containing_blocks {
                            Some(blocks) => forall|block: BlockId|
                                infos@[i].in_blocks@.contains(block) <==> #[trigger]
                                blocks@.contains(block),
                            None => infos@[i].in_blocks@.len() == 0,
                        }
                    }
            }
        }),
{
    let known = lookups@.filter(|lookup: Lookup<OperationId, T>| lookup.item is Some);
    assert(known =~= lookups@.filter(|lookup: Lookup<OperationId, T>| is_found(lookup))) by {
        assert((|lookup: Lookup<OperationId, T>| lookup.item is Some) =~= (
        |lookup: Lookup<OperationId, T>| is_found(lookup)));
    }
    if let Ok(infos) = answer {
        assert forall|i: int| 0 <= i < infos@.len() implies match known[i].containing_blocks {
            Some(blocks) => forall|block: BlockId|
                (#[trigger] infos@[i]).in_blocks@.contains(block) <==> #[trigger]
                blocks@.contains(block),
            None => infos@[i].in_blocks@.len() == 0,
        } by {
            let blocks = infos@[i].in_blocks@;
            assert(blocks.to_set() == set_or_empty(known[i].containing_blocks));
            assert(forall|block: BlockId|
                blocks.contains(block) <==> #[trigger] blocks.to_set().contains(block));
            if known[i].containing_blocks is None && blocks.len() > 0 {
                assert(blocks.contains(blocks[0]));
                assert(blocks.to_set().contains(blocks[0]));
            }
        }
    }
}

/// The pool is asked about exactly those endorsements of a request that storage
/// knows, in the order of the request. Each record of the answer tells of one of
/// them what storage holds, exactly the blocks in which storage says it occurs,
/// each once, and what the pool says of it, whatever storage says of it and
/// whatever is said of others. A request is refused exactly if storage knows more
/// than the limit.
pub proof fn law_endorsements_are_told_as_they_are_known<
    Consensus,
    Execution,
    Selector,
    Pool,
    Network,
    Storage,
    T,
>(
    api: API<Public<Consensus, Execution, Selector, Pool, Network, Storage>>,
    lookups: Vec<Lookup<EndorsementId, T>>,
    kept: Found<EndorsementId, T>,
    ids: &Vec<EndorsementId>,
    in_pool: Vec<bool>,
    answer: Result<Vec<EndorsementInfo<T>>, ApiError>,
)
    requires
        call_ensures(
            API::<
                Public<Consensus, Execution, Selector, Pool, Network, Storage>,
            >::get_endorsements::<T>,
            (&api, lookups),
            kept,
        ),
        call_ensures(Found::<EndorsementId, T>::ids, (&kept,), ids),
        call_ensures(Found::<EndorsementId, T>::endorsement_infos, (kept, in_pool), answer),
    ensures
        ({
            let known = lookups@.filter(|lookup: Lookup<EndorsementId, T>| lookup.item is Some);
            &&& ids@.len() == known.len()
            &&& forall|i: int|
                0 <= i < known.len() ==> #[trigger] ids@[i] == known[i].item->0.id
            &&& answer is Ok <==> known.len() <= api.0.api_settings.max_arguments
            &&& answer matches Err(error) ==> (error matches ApiError::TooManyArguments(text)
                && text@ == "too many arguments"@)
            &&& answer matches Ok(infos) ==> {
                &&& infos@.len() <= known.len()
                &&& infos@.len() <= in_pool@.len()
                &&& infos@.len() == known.len() || infos@.len() == in_pool@.len()
                &&& forall|i: int|
                    0 <= i < infos@.len() ==> {
                        &&& (#[trigger] infos@[i]).id == known[i].item->0.id
                        &&& infos@[i].endorsement == known[i].item->0
                        &&& infos@[i].in_pool == in_pool@[i]
                        &&& infos@[i].in_blocks@.no_duplicates()
                        &&& match known[i].containing_blocks {
                            Some(blocks) => forall|block: BlockId|
                                infos@[i].in_blocks@.contains(block) <==> #[trigger]
                                blocks@.contains(block),
                            None => infos@[i].in_blocks@.len() == 0,
                        }
                    }
            }
        }),
{
    let known = lookups@.filter(|lookup: Lookup<EndorsementId, T>| lookup.item is Some);
    assert(known =~= lookups@.filter(|lookup: Lookup<EndorsementId, T>| is_found(lookup))) by {
        assert((|lookup: Lookup<EndorsementId, T>| lookup.item is Some) =~= (
        |lookup: Lookup<EndorsementId, T>| is_found(lookup)));
    }
    if let Ok(infos) = answer {
        assert forall|i: int| 0 <= i < infos@.len() implies match known[i].containing_blocks {
            Some(blocks) => forall|block: BlockId|
                (#[trigger] infos@[i]).in_blocks@.contains(block) <==> #[trigger]
                blocks@.contains(block),
            None => infos@[i].in_blocks@.len() == 0,
        } by {
            let blocks = infos@[i].in_blocks@;
            assert(blocks.to_set() == set_or_empty(known[i].containing_blocks));
            assert(forall|block: BlockId|
                blocks.contains(block) <==> #[trigger] blocks.to_set().contains(block));
            if known[i].containing_blocks is None && blocks.len() > 0 {
                assert(blocks.contains(blocks[0]));
                assert(blocks.to_set().contains(blocks[0]));
            }
        }
    }
}

} // verus!
