//! What the node knows of addresses: `get_addresses`.

use crate::api::{Public, API};
use crate::id_set::IdSet;
use crate::models::{Address, BlockId, EndorsementId, OperationId};
use crate::records::{or_empty, set_or_empty};
use crate::sequences::{zip, zipped};
use vstd::prelude::*;

verus! {

/// What the node knows of an address. `Ledger` is the type of what execution
/// says of the address in one state of the ledger, `Selection` that of what the
/// selector says of it. Deferred credits have no place here: none of the
/// services that are asked reports them.
#[derive(Debug)]
pub struct AddressInfo<Ledger, Selection> {
    pub address: Address,
    /// The thread in which operations of the address are included.
    pub thread: u8,
    /// What the final state of the ledger says.
    pub final_ledger_info: Ledger,
    /// What the candidate state of the ledger says.
    pub candidate_ledger_info: Ledger,
    /// The draws and the active rolls.
    pub cycle_info: Selection,
    /// The blocks that the address created.
    pub created_blocks: IdSet<BlockId>,
    /// The endorsements that the address created.
    pub created_endorsements: IdSet<EndorsementId>,
    /// The operations that the address created.
    pub created_operations: IdSet<OperationId>,
}

/// An [`AddressInfo`] with what the address created as sets.
pub struct AddressInfoView<Ledger, Selection> {
    pub address: Address,
    pub thread: u8,
    pub final_ledger_info: Ledger,
    pub candidate_ledger_info: Ledger,
    pub cycle_info: Selection,
    pub created_blocks: Set<BlockId>,
    pub created_endorsements: Set<EndorsementId>,
    pub created_operations: Set<OperationId>,
}

impl<Ledger, Selection> View for AddressInfo<Ledger, Selection> {
    type V = AddressInfoView<Ledger, Selection>;

    open spec fn view(&self) -> AddressInfoView<Ledger, Selection> {
        AddressInfoView {
            address: self.address,
            thread: self.thread,
            final_ledger_info: self.final_ledger_info,
            candidate_ledger_info: self.candidate_ledger_info,
            cycle_info: self.cycle_info,
            created_blocks: self.created_blocks@,
            created_endorsements: self.created_endorsements@,
            created_operations: self.created_operations@,
        }
    }
}

/// How many of the addresses all services answered for: the length of the
/// shortest of the six lists.
pub open spec fn answered(
    addresses: nat,
    created_blocks: nat,
    created_operations: nat,
    created_endorsements: nat,
    ledger_infos: nat,
    selection_infos: nat,
) -> nat {
    min(
        min(min(addresses, created_blocks), min(created_operations, created_endorsements)),
        min(ledger_infos, selection_infos),
    )
}

/// The lesser of two numbers.
pub open spec fn min(left: nat, right: nat) -> nat {
    if left <= right {
        left
    } else {
        right
    }
}

/// What is compiled of the addresses, each with its thread, of what storage
/// says they created, of the final and the candidate state of the ledger, and
/// of the draws. Where a service says less than it was asked, the addresses in
/// excess are dropped.
pub open spec fn address_infos<Ledger, Selection>(
    addresses: Seq<(Address, u8)>,
    created_blocks: Seq<Option<IdSet<BlockId>>>,
    created_operations: Seq<Option<IdSet<OperationId>>>,
    created_endorsements: Seq<Option<IdSet<EndorsementId>>>,
    ledger_infos: Seq<(Ledger, Ledger)>,
    selection_infos: Seq<Selection>,
) -> Seq<AddressInfoView<Ledger, Selection>> {
    Seq::new(
        answered(
            addresses.len(),
            created_blocks.len(),
            created_operations.len(),
            created_endorsements.len(),
            ledger_infos.len(),
            selection_infos.len(),
        ),
        |i: int|
            AddressInfoView {
                address: addresses[i].0,
                thread: addresses[i].1,
                final_ledger_info: ledger_infos[i].0,
                candidate_ledger_info: ledger_infos[i].1,
                cycle_info: selection_infos[i],
                created_blocks: set_or_empty(created_blocks[i]),
                created_endorsements: set_or_empty(created_endorsements[i]),
                created_operations: set_or_empty(created_operations[i]),
            },
    )
}

impl<Consensus, Execution, Selector, Pool, Network, Storage> API<
    Public<Consensus, Execution, Selector, Pool, Network, Storage>,
> {
    /// Compiles what the services say of addresses. Each address comes with its
    /// thread; what the services say is in the order of the addresses.
    pub fn get_addresses<Ledger, Selection>(
        &self,
        addresses: Vec<(Address, u8)>,
        created_blocks: Vec<Option<IdSet<BlockId>>>,
        created_operations: Vec<Option<IdSet<OperationId>>>,
        created_endorsements: Vec<Option<IdSet<EndorsementId>>>,
        ledger_infos: Vec<(Ledger, Ledger)>,
        selection_infos: Vec<Selection>,
    ) -> (infos: Vec<AddressInfo<Ledger, Selection>>)
        ensures
            infos@.map_values(|info: AddressInfo<Ledger, Selection>| info@) == address_infos(
                addresses@,
                created_blocks@,
                created_operations@,
                created_endorsements@,
                ledger_infos@,
                selection_infos@,
            ),
            infos@.len() == address_infos(
                addresses@,
                created_blocks@,
                created_operations@,
                created_endorsements@,
                ledger_infos@,
                selection_infos@,
            ).len(),
            forall|i: int|
                0 <= i < infos@.len() ==> (#[trigger] infos@[i])@ == address_infos(
                    addresses@,
                    created_blocks@,
                    created_operations@,
                    created_endorsements@,
                    ledger_infos@,
                    selection_infos@,
                )[i],
    {
        let ghost expected = address_infos(
            addresses@,
            created_blocks@,
            created_operations@,
            created_endorsements@,
            ledger_infos@,
            selection_infos@,
        );
        let replies = zip(
            zip(zip(addresses, created_blocks), zip(created_operations, created_endorsements)),
            zip(ledger_infos, selection_infos),
        );
        let mut infos: Vec<AddressInfo<Ledger, Selection>> = Vec::with_capacity(replies.len());
        for reply in it: replies
            invariant
                it.seq() == replies@,
                replies@ == zipped(
                    zipped(
                        zipped(addresses@, created_blocks@),
                        zipped(created_operations@, created_endorsements@),
                    ),
                    zipped(ledger_infos@, selection_infos@),
                ),
                expected == address_infos(
                    addresses@,
                    created_blocks@,
                    created_operations@,
                    created_endorsements@,
                    ledger_infos@,
                    selection_infos@,
                ),
                infos@.len() == it.index(),
                forall|i: int| 0 <= i < infos@.len() ==> (#[trigger] infos@[i])@ == expected[i],
        {
            let ((requested, created), (ledger_info, cycle_info)) = reply;
            let ((address, thread), created_blocks) = requested;
            let (created_operations, created_endorsements) = created;
            let (final_ledger_info, candidate_ledger_info) = ledger_info;
            infos.push(
                AddressInfo {
                    address,
                    thread,
                    final_ledger_info,
                    candidate_ledger_info,
                    cycle_info,
                    created_blocks: or_empty(created_blocks),
                    created_endorsements: or_empty(created_endorsements),
                    created_operations: or_empty(created_operations),
                },
            );
        }
        assert(infos@.map_values(|info: AddressInfo<Ledger, Selection>| info@) =~= expected);
        infos
    }
}

/// Where every service answers for every address, the answer has one record for
/// each address, in the order of the request.
pub proof fn law_one_info_per_address<Ledger, Selection>(
    addresses: Seq<(Address, u8)>,
    created_blocks: Seq<Option<IdSet<BlockId>>>,
    created_operations: Seq<Option<IdSet<OperationId>>>,
    created_endorsements: Seq<Option<IdSet<EndorsementId>>>,
    ledger_infos: Seq<(Ledger, Ledger)>,
    selection_infos: Seq<Selection>,
)
    requires
        created_blocks.len() == addresses.len(),
        created_operations.len() == addresses.len(),
        created_endorsements.len() == addresses.len(),
        ledger_infos.len() == addresses.len(),
        selection_infos.len() == addresses.len(),
    ensures
        address_infos(
            addresses,
            created_blocks,
            created_operations,
            created_endorsements,
            ledger_infos,
            selection_infos,
        ).map_values(|info: AddressInfoView<Ledger, Selection>| (info.address, info.thread))
            == addresses,
{
    assert(address_infos(
        addresses,
        created_blocks,
        created_operations,
        created_endorsements,
        ledger_infos,
        selection_infos,
    ).map_values(|info: AddressInfoView<Ledger, Selection>| (info.address, info.thread))
        =~= addresses);
}

/// Each record of an answer tells of one address what each service says of that
/// address, whatever it says of others and whatever the other services say. What
/// storage knows nothing of was not created. There are as many records as there
/// are addresses, unless some service says less.
pub proof fn law_info_is_what_the_services_say<
    Consensus,
    Execution,
    Selector,
    Pool,
    Network,
    Storage,
    Ledger,
    Selection,
>(
    api: API<Public<Consensus, Execution, Selector, Pool, Network, Storage>>,
    addresses: Vec<(Address, u8)>,
    created_blocks: Vec<Option<IdSet<BlockId>>>,
    created_operations: Vec<Option<IdSet<OperationId>>>,
    created_endorsements: Vec<Option<IdSet<EndorsementId>>>,
    ledger_infos: Vec<(Ledger, Ledger)>,
    selection_infos: Vec<Selection>,
    infos: Vec<AddressInfo<Ledger, Selection>>,
)
    requires
        call_ensures(
            API::<Public<Consensus, Execution, Selector, Pool, Network, Storage>>::get_addresses::<
                Ledger,
                Selection,
            >,
            (
                &api,
                addresses,
                created_blocks,
                created_operations,
                created_endorsements,
                ledger_infos,
                selection_infos,
            ),
            infos,
        ),
    ensures
        infos@.len() <= addresses@.len(),
        infos@.len() <= created_blocks@.len(),
        infos@.len() <= created_operations@.len(),
        infos@.len() <= created_endorsements@.len(),
        infos@.len() <= ledger_infos@.len(),
        infos@.len() <= selection_infos@.len(),
        infos@.len() == addresses@.len() || infos@.len() == created_blocks@.len() || infos@.len()
            == created_operations@.len() || infos@.len() == created_endorsements@.len()
            || infos@.len() == ledger_infos@.len() || infos@.len() == selection_infos@.len(),
        forall|i: int|
            0 <= i < infos@.len() ==> {
                &&& (#[trigger] infos@[i]).address == addresses@[i].0
                &&& infos@[i].thread == addresses@[i].1
                &&& infos@[i].final_ledger_info == ledger_infos@[i].0
                &&& infos@[i].candidate_ledger_info == ledger_infos@[i].1
                &&& infos@[i].cycle_info == selection_infos@[i]
                &&& match created_blocks@[i] {
                    Some(blocks) => infos@[i].created_blocks@ == blocks@,
                    None => infos@[i].created_blocks@ == Set::<BlockId>::empty(),
                }
                &&& match created_operations@[i] {
                    Some(operations) => infos@[i].created_operations@ == operations@,
                    None => infos@[i].created_operations@ == Set::<OperationId>::empty(),
                }
                &&& match created_endorsements@[i] {
                    Some(endorsements) => infos@[i].created_endorsements@ == endorsements@,
                    None => infos@[i].created_endorsements@ == Set::<EndorsementId>::empty(),
                }
            },
{
}

} // verus!
