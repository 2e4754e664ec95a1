//! The values that the endpoints exchange with the node's services.

use vstd::prelude::*;

verus! {

/// A value that is told apart from others of its type by its bytes.
pub trait Identifier: Copy {
    /// Whether the two identifiers are the same.
    fn same(&self, other: &Self) -> (same: bool)
        ensures
            same == (*self == *other),
    ;
}

/// Whether two digests hold the same bytes.
fn same_digest(left: &[u8; 32], right: &[u8; 32]) -> (same: bool)
    ensures
        same == (*left == *right),
{
    let mut i: usize = 0;
    while i < 32
        invariant
            i <= 32,
            forall|j: int| 0 <= j < i ==> left@[j] == right@[j],
        decreases 32 - i,
    {
        if left[i] != right[i] {
            return false;
        }
        i += 1;
    }
    assert(left@ =~= right@);
    assert(*left =~= *right);
    true
}

/// Identifies a block.
#[derive(Clone, Copy, PartialEq, Eq, Debug)]
pub struct BlockId(pub [u8; 32]);

impl Identifier for BlockId {
    fn same(&self, other: &Self) -> (same: bool) {
        same_digest(&self.0, &other.0)
    }
}

/// Identifies an operation.
#[derive(Clone, Copy, PartialEq, Eq, Debug)]
pub struct OperationId(pub [u8; 32]);

impl Identifier for OperationId {
    fn same(&self, other: &Self) -> (same: bool) {
        same_digest(&self.0, &other.0)
    }
}

/// Identifies an endorsement.
#[derive(Clone, Copy, PartialEq, Eq, Debug)]
pub struct EndorsementId(pub [u8; 32]);

impl Identifier for EndorsementId {
    fn same(&self, other: &Self) -> (same: bool) {
        same_digest(&self.0, &other.0)
    }
}

/// Identifies a node of the network.
#[derive(Clone, Copy, PartialEq, Eq, Debug)]
pub struct NodeId(pub [u8; 32]);

/// The address of an account.
#[derive(Clone, Copy, PartialEq, Eq, Debug)]
pub struct Address(pub [u8; 32]);

/// An amount of coins, in the smallest unit.
#[derive(Clone, Copy, PartialEq, Eq, Debug)]
pub struct Amount(pub u64);

/// A point in time, or a length of time, in milliseconds.
#[derive(Clone, Copy, PartialEq, Eq, Debug)]
pub struct MassaTime(pub u64);

/// The network address of a peer.
#[derive(Clone, Copy, PartialEq, Eq, Debug)]
pub enum IpAddr {
    V4([u8; 4]),
    V6([u8; 16]),
}

/// The version of the node's software.
#[derive(Clone, Copy, PartialEq, Eq, Debug)]
pub struct Version {
    pub instance: [char; 4],
    pub major: u32,
    pub minor: u32,
}

/// A place in the block graph: at most one block is due in each.
#[derive(Clone, Copy, PartialEq, Eq, Debug)]
pub struct Slot {
    pub period: u64,
    pub thread: u8,
}

impl Slot {
    /// The slot of the genesis period in the first thread.
    pub open spec fn genesis() -> Slot {
        Slot { period: 0, thread: 0 }
    }

    /// The slot that stands for the present when the latest slot is `last`:
    /// that slot, or the genesis slot as long as there is none.
    pub open spec fn spec_or_genesis(last: Option<Slot>) -> Slot {
        match last {
            Some(slot) => slot,
            None => Slot::genesis(),
        }
    }

    /// The latest slot, or the genesis slot before the first one.
    pub fn or_genesis(last: Option<Slot>) -> (slot: Slot)
        ensures
            slot == Slot::spec_or_genesis(last),
    {
        match last {
            Some(slot) => slot,
            None => Slot { period: 0, thread: 0 },
        }
    }
}

/// A value with the identifier under which it is known.
#[derive(PartialEq, Eq, Debug)]
pub struct Wrapped<Id, T> {
    pub id: Id,
    pub content: T,
}

/// The latest slot stands for itself; before the first one, period 0 in thread 0
/// stands for it.
pub proof fn law_slot_or_genesis(last: Option<Slot>, slot: Slot)
    requires
        call_ensures(Slot::or_genesis, (last,), slot),
    ensures
        match last {
            Some(last) => slot == last,
            None => slot.period == 0 && slot.thread == 0,
        },
{
}

} // verus!
