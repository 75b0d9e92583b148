//! Which of two chains to follow.

use crate::header::Header;
use crate::header::HeaderView;
use crate::primitives::zero_bytes;
use crate::primitives::B256;
use crate::snapshot::snapshot_view;
use crate::snapshot::Snapshot;
use crate::snapshot::SnapshotView;
use vstd::prelude::*;

verus! {

/// Fork choice that puts fast finality before the length of the chain.
#[derive(Clone, Copy, Debug)]
pub struct BscForkChoice;

/// The number of the justified block that a snapshot knows; the genesis block where there is no
/// snapshot.
pub open spec fn justified_number(snap: Option<SnapshotView>) -> u64 {
    match snap {
        Some(s) => s.vote_data.target_number,
        None => 0,
    }
}

/// The longer chain is followed; of two chains of the same length, the one with the earlier head.
pub open spec fn simple_reorg(current: HeaderView, incoming: HeaderView) -> bool {
    incoming.number > current.number || (incoming.number == current.number && incoming.timestamp
        < current.timestamp)
}

/// The chain with the higher justified block is followed once fast finality is active; where the
/// two are the same, the chains are compared by length.
pub open spec fn fast_finality_reorg(
    current: HeaderView,
    incoming: HeaderView,
    current_snap: Option<SnapshotView>,
    incoming_snap: Option<SnapshotView>,
    plato: bool,
) -> bool {
    if plato && justified_number(incoming_snap) != justified_number(current_snap) {
        justified_number(incoming_snap) > justified_number(current_snap)
    } else {
        simple_reorg(current, incoming)
    }
}

impl BscForkChoice {
    /// Whether to switch from the chain of `current` to that of `incoming`.
    pub fn reorg_needed_with_fast_finality(
        current: &Header,
        incoming: &Header,
        current_snap: Option<&Snapshot>,
        incoming_snap: Option<&Snapshot>,
        is_plato_active: bool,
    ) -> (r: bool)
        ensures
            r == fast_finality_reorg(
                current@,
                incoming@,
                snapshot_view(current_snap),
                snapshot_view(incoming_snap),
                is_plato_active,
            ),
            is_plato_active ==> (current_snap matches Some(c) ==> (incoming_snap matches Some(i) ==> {
                &&& i.vote_data.target_number > c.vote_data.target_number ==> r
                &&& i.vote_data.target_number < c.vote_data.target_number ==> !r
            })),
            !is_plato_active && incoming.number > current.number ==> r,
            !is_plato_active && incoming.number < current.number ==> !r,
    {
        if !is_plato_active {
            return Self::reorg_needed_simple(current, incoming);
        }
        let (incoming_justified, current_justified) = Self::extract_justified_numbers(
            current_snap,
            incoming_snap,
        );
        if incoming_justified != current_justified {
            return incoming_justified > current_justified;
        }
        Self::reorg_needed_simple(current, incoming)
    }

    /// The justified blocks of the incoming and of the current chain.
    pub fn extract_justified_numbers(
        current_snap: Option<&Snapshot>,
        incoming_snap: Option<&Snapshot>,
    ) -> (r: (u64, u64))
        ensures
            r.0 == justified_number(snapshot_view(incoming_snap)),
            r.1 == justified_number(snapshot_view(current_snap)),
    {
        let incoming_justified: u64 = match incoming_snap {
            Some(snap) => snap.vote_data.target_number,
            None => 0,
        };
        let current_justified: u64 = match current_snap {
            Some(snap) => snap.vote_data.target_number,
            None => 0,
        };
        (incoming_justified, current_justified)
    }

    /// Whether to switch chains by length and time alone.
    pub fn reorg_needed_simple(current: &Header, incoming: &Header) -> (r: bool)
        ensures
            r == simple_reorg(current@, incoming@),
    {
        if incoming.number > current.number {
            true
        } else if incoming.number < current.number {
            false
        } else {
            incoming.timestamp < current.timestamp
        }
    }

    /// The justified block that a snapshot knows; the genesis block where there is no snapshot.
    pub fn get_justified_number_and_hash(snap: Option<&Snapshot>) -> (r: (u64, B256))
        ensures
            match snap {
                Some(s) => r == (s.vote_data.target_number, s.vote_data.target_hash),
                None => r == (0u64, zero_bytes::<32>()),
            },
    {
        match snap {
            Some(snap) => (snap.vote_data.target_number, snap.vote_data.target_hash),
            None => (0, B256::zero()),
        }
    }
}

/// A chain is never left for itself, and two chains are never both left for each other.
pub proof fn law_no_reorg_back(
    a: HeaderView,
    b: HeaderView,
    a_snap: Option<SnapshotView>,
    b_snap: Option<SnapshotView>,
    plato: bool,
)
    ensures
        !fast_finality_reorg(a, a, a_snap, a_snap, plato),
        fast_finality_reorg(a, b, a_snap, b_snap, plato) ==> !fast_finality_reorg(
            b,
            a,
            b_snap,
            a_snap,
            plato,
        ),
{
}

/// Switching chains twice is switching to the last at once: the choice does not go in circles.
pub proof fn law_reorg_is_transitive(
    a: HeaderView,
    b: HeaderView,
    c: HeaderView,
    a_snap: Option<SnapshotView>,
    b_snap: Option<SnapshotView>,
    c_snap: Option<SnapshotView>,
    plato: bool,
)
    requires
        fast_finality_reorg(a, b, a_snap, b_snap, plato),
        fast_finality_reorg(b, c, b_snap, c_snap, plato),
    ensures
        fast_finality_reorg(a, c, a_snap, c_snap, plato),
{
}

/// With fast finality active no reorganization lowers the justified block.
pub proof fn law_justified_never_goes_back(
    current: HeaderView,
    incoming: HeaderView,
    current_snap: Option<SnapshotView>,
    incoming_snap: Option<SnapshotView>,
)
    requires
        fast_finality_reorg(current, incoming, current_snap, incoming_snap, true),
    ensures
        justified_number(incoming_snap) >= justified_number(current_snap),
{
}

/// With fast finality active the chain whose snapshot attests the higher target is followed,
/// however short it is; a chain without a snapshot gives way to any that attests a block.
pub proof fn law_higher_justified_chain_is_followed(
    current: HeaderView,
    incoming: HeaderView,
    current_snap: SnapshotView,
    incoming_snap: SnapshotView,
)
    ensures
        incoming_snap.vote_data.target_number > current_snap.vote_data.target_number
            ==> fast_finality_reorg(
            current,
            incoming,
            Some(current_snap),
            Some(incoming_snap),
            true,
        ),
        incoming_snap.vote_data.target_number < current_snap.vote_data.target_number
            ==> !fast_finality_reorg(
            current,
            incoming,
            Some(current_snap),
            Some(incoming_snap),
            true,
        ),
        incoming_snap.vote_data.target_number > 0 ==> fast_finality_reorg(
            current,
            incoming,
            None,
            Some(incoming_snap),
            true,
        ) && !fast_finality_reorg(incoming, current, Some(incoming_snap), None, true),
{
}

/// Where nothing is justified on one side alone, a longer chain is followed and a shorter one is
/// not; of two chains of the same length the one whose head came strictly earlier is.
pub proof fn law_longer_then_earlier_chain_is_followed(
    current: HeaderView,
    incoming: HeaderView,
    current_snap: Option<SnapshotView>,
    incoming_snap: Option<SnapshotView>,
    plato: bool,
)
    requires
        plato ==> match (current_snap, incoming_snap) {
            (Some(c), Some(i)) => c.vote_data.target_number == i.vote_data.target_number,
            (Some(s), None) | (None, Some(s)) => s.vote_data.target_number == 0,
            (None, None) => true,
        },
    ensures
        incoming.number > current.number ==> fast_finality_reorg(
            current,
            incoming,
            current_snap,
            incoming_snap,
            plato,
        ),
        incoming.number < current.number ==> !fast_finality_reorg(
            current,
            incoming,
            current_snap,
            incoming_snap,
            plato,
        ),
        incoming.number == current.number ==> (fast_finality_reorg(
            current,
            incoming,
            current_snap,
            incoming_snap,
            plato,
        ) <==> incoming.timestamp < current.timestamp),
{
}

} // verus!
